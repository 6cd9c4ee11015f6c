use cita_gossip::schedule::{Schedule, ScheduleKind, Step};
use cita_gossip::schedule::Step::{Done, Request, Wait};

fn run(kind: ScheduleKind) -> Vec<Step> {
    let mut s = Schedule::new(kind);
    let mut out = Vec::new();
    loop {
        let st = s.next();
        out.push(st);
        if st == Step::Done {
            break;
        }
    }
    assert_eq!(s.next(), Step::Done);
    out
}

#[test]
fn cluster_maintenance_is_three_requests_a_period_apart() {
    assert_eq!(
        run(ScheduleKind::ClusterMaintenance),
        vec![Request, Wait, Request, Wait, Request, Wait, Done]
    );
}

#[test]
fn gossip_is_five_requests_after_a_pause() {
    let steps = run(ScheduleKind::Gossip);
    assert_eq!(
        steps,
        vec![Wait, Wait, Wait, Request, Wait, Request, Wait, Request, Wait, Request, Wait, Request, Wait, Done]
    );
    assert_eq!(steps.iter().filter(|s| **s == Request).count(), 5);
}
