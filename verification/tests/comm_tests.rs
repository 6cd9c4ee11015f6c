use cita_gossip::comm::{comm, ServerMode, DEFAULT_PORT};

#[test]
fn port_defaults_to_443() {
    assert_eq!(comm::port(None), 443);
    assert_eq!(DEFAULT_PORT, 443);
    assert_eq!(comm::port(Some(8443)), 8443);
}

#[test]
fn server_mode_choice() {
    assert_eq!(comm::server_mode(true, true, None), ServerMode::Echo);
    assert_eq!(comm::server_mode(false, true, Some(1)), ServerMode::Http);
    assert_eq!(comm::server_mode(false, false, Some(8080)), ServerMode::Forward(8080));
}
