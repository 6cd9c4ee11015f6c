//! The periodic rounds of a node: when to wait a period, when to send a list
//! request to a random member, and when the rounds are over. The waiting and
//! sending are done by the caller.

use vstd::prelude::*;

verus! {

/// Which run of rounds.
#[derive(PartialEq, Eq, Structural, Clone, Copy, Debug)]
pub enum ScheduleKind {
    /// Cluster maintenance: three rounds, each a list request and then a
    /// period's wait.
    ClusterMaintenance,
    /// Gossip: a first period, a pause of one period, then five periods each
    /// followed by a list request, and a last period.
    Gossip,
}

/// What to do next.
#[derive(PartialEq, Eq, Structural, Clone, Copy, Debug)]
pub enum Step {
    /// Wait one period.
    Wait,
    /// Send a list request to a member drawn at random.
    Request,
    /// The rounds are over.
    Done,
}

/// The step at position `i` of a run.
pub open spec fn spec_step(kind: ScheduleKind, i: int) -> Step {
    match kind {
        ScheduleKind::ClusterMaintenance => if 0 <= i < 6 {
            if i % 2 == 0 {
                Step::Request
            } else {
                Step::Wait
            }
        } else {
            Step::Done
        },
        ScheduleKind::Gossip => if 0 <= i < 2 {
            Step::Wait
        } else if 2 <= i < 12 {
            if i % 2 == 0 {
                Step::Wait
            } else {
                Step::Request
            }
        } else if i == 12 {
            Step::Wait
        } else {
            Step::Done
        },
    }
}

/// A run of rounds and how far it has got.
pub struct Schedule {
    kind: ScheduleKind,
    pos: usize,
}

/// The view of a run: its kind and position.
pub struct ScheduleView {
    pub kind: ScheduleKind,
    pub pos: int,
}

impl View for Schedule {
    type V = ScheduleView;

    closed spec fn view(&self) -> ScheduleView {
        ScheduleView { kind: self.kind, pos: self.pos as int }
    }
}

impl Schedule {
    /// A run never moves past its end.
    #[verifier::type_invariant]
    spec fn within_run(self) -> bool {
        self.pos <= 13
    }

    /// A run of the given kind, at its start.
    pub fn new(kind: ScheduleKind) -> (s: Schedule)
        ensures
            s@ == (ScheduleView { kind, pos: 0 }),
    {
        Schedule { kind, pos: 0 }
    }

    /// The next step; the run moves on past it unless the run is over.
    pub fn next(&mut self) -> (st: Step)
        ensures
            st == spec_step(old(self)@.kind, old(self)@.pos),
            final(self)@.kind == old(self)@.kind,
            final(self)@.pos == if st == Step::Done {
                old(self)@.pos
            } else {
                old(self)@.pos + 1
            },
    {
        proof {
            use_type_invariant(&*self);
        }
        let i = self.pos;
        let st = match self.kind {
            ScheduleKind::ClusterMaintenance => if i < 6 {
                if i % 2 == 0 {
                    Step::Request
                } else {
                    Step::Wait
                }
            } else {
                Step::Done
            },
            ScheduleKind::Gossip => if i < 2 {
                Step::Wait
            } else if i < 12 {
                if i % 2 == 0 {
                    Step::Wait
                } else {
                    Step::Request
                }
            } else if i == 12 {
                Step::Wait
            } else {
                Step::Done
            },
        };
        if st != Step::Done {
            self.pos = i + 1;
        }
        st
    }
}

/// Cluster maintenance sends exactly three list requests, at positions 0,
/// 2 and 4, and is over from position 6 on.
pub proof fn lemma_maintenance_rounds(i: int)
    requires
        0 <= i,
    ensures
        (spec_step(ScheduleKind::ClusterMaintenance, i) == Step::Request) == (i == 0 || i == 2 || i == 4),
        (spec_step(ScheduleKind::ClusterMaintenance, i) == Step::Done) == (i >= 6),
{
}

/// Gossip sends exactly five list requests, at positions 3, 5, 7, 9 and 11,
/// each after a wait, and is over from position 13 on.
pub proof fn lemma_gossip_rounds(i: int)
    requires
        0 <= i,
    ensures
        (spec_step(ScheduleKind::Gossip, i) == Step::Request) == (i == 3 || i == 5 || i == 7 || i == 9 || i == 11),
        spec_step(ScheduleKind::Gossip, i) == Step::Request ==> spec_step(ScheduleKind::Gossip, i - 1) == Step::Wait,
        (spec_step(ScheduleKind::Gossip, i) == Step::Done) == (i >= 13),
{
}

} // verus!
