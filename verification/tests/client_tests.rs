use cita_gossip::client::{
    find_lowered, find_suite, lookup_ipv4, lookup_suites, lookup_versions, ready_interest,
    version_of, Interest, ReadAction, ReadEvent, TlsClient, TlsVersion,
};

#[test]
fn fresh_client_is_open() {
    let c = TlsClient::new();
    assert!(!c.is_closed());
    assert!(!c.is_clean());
    assert_eq!(c.ready(), None);
}

#[test]
fn read_path_without_errors() {
    let mut c = TlsClient::new();
    assert_eq!(c.do_read(ReadEvent::TlsRead(100)), ReadAction::ProcessPackets);
    assert_eq!(c.do_read(ReadEvent::Processed), ReadAction::ReadPlaintext);
    assert_eq!(
        c.do_read(ReadEvent::Plaintext { len: 12, error: None }),
        ReadAction::Finish { echo: true }
    );
    assert_eq!(
        c.do_read(ReadEvent::Plaintext { len: 0, error: None }),
        ReadAction::Finish { echo: false }
    );
    assert!(!c.is_closed());
    assert_eq!(c.ready(), None);
}

#[test]
fn end_of_stream_closes_cleanly() {
    let mut c = TlsClient::new();
    assert_eq!(c.do_read(ReadEvent::TlsRead(0)), ReadAction::Finish { echo: false });
    assert!(c.is_closed() && c.is_clean());
    assert_eq!(c.ready(), Some(0));
}

#[test]
fn read_failure_closes_uncleanly() {
    let mut c = TlsClient::new();
    assert_eq!(c.do_read(ReadEvent::TlsReadFailed), ReadAction::Finish { echo: false });
    assert!(c.is_closed() && !c.is_clean());
    assert_eq!(c.ready(), Some(1));
    let mut d = TlsClient::new();
    assert_eq!(d.do_read(ReadEvent::ProcessFailed), ReadAction::Finish { echo: false });
    assert_eq!(d.ready(), Some(1));
}

#[test]
fn plaintext_error_closes_cleanly_only_on_abort() {
    let mut c = TlsClient::new();
    assert_eq!(
        c.do_read(ReadEvent::Plaintext { len: 5, error: Some(true) }),
        ReadAction::Finish { echo: true }
    );
    assert_eq!(c.ready(), Some(0));
    let mut d = TlsClient::new();
    d.do_read(ReadEvent::Plaintext { len: 0, error: Some(false) });
    assert_eq!(d.ready(), Some(1));
}

#[test]
fn closing_stays_closing() {
    let mut c = TlsClient::new();
    c.do_read(ReadEvent::TlsReadFailed);
    c.do_read(ReadEvent::TlsRead(10));
    c.do_read(ReadEvent::Processed);
    c.do_read(ReadEvent::Plaintext { len: 1, error: None });
    assert!(c.is_closed());
}

#[test]
fn interest_from_wants() {
    assert_eq!(ready_interest(true, true), Interest::ReadWrite);
    assert_eq!(ready_interest(false, true), Interest::Writable);
    assert_eq!(ready_interest(true, false), Interest::Readable);
    assert_eq!(ready_interest(false, false), Interest::Readable);
}

#[test]
fn versions_by_name() {
    assert_eq!(version_of(&"1.2".to_string()), Some(TlsVersion::TLSv1_2));
    assert_eq!(version_of(&"1.3".to_string()), Some(TlsVersion::TLSv1_3));
    assert_eq!(version_of(&"1.1".to_string()), None);
    assert_eq!(version_of(&"".to_string()), None);
    assert_eq!(
        lookup_versions(&vec!["1.3".to_string(), "1.2".to_string()]),
        vec![TlsVersion::TLSv1_3, TlsVersion::TLSv1_2]
    );
    assert!(lookup_versions(&vec![]).is_empty());
}

fn suites() -> Vec<String> {
    vec![
        "TLS13_AES_256_GCM_SHA384".to_string(),
        "TLS13_AES_128_GCM_SHA256".to_string(),
        "TLS13_CHACHA20_POLY1305_SHA256".to_string(),
    ]
}

#[test]
fn suite_lookup_ignores_case() {
    assert_eq!(find_suite(&suites(), "tls13_aes_128_gcm_sha256"), Some(1));
    assert_eq!(find_suite(&suites(), "Tls13_Chacha20_Poly1305_Sha256"), Some(2));
    assert_eq!(find_suite(&suites(), "TLS13_AES_256_GCM_SHA384"), Some(0));
    assert_eq!(find_suite(&suites(), "rc4"), None);
    assert_eq!(find_suite(&suites(), "TLS13_AES_128_GCM_SHA256"), find_suite(&suites(), "tls13_aes_128_gcm_sha256"));
    assert_eq!(
        lookup_suites(&suites(), &vec!["tls13_chacha20_poly1305_sha256".to_string(), "TLS13_AES_256_GCM_SHA384".to_string()]),
        vec![2, 0]
    );
}

#[test]
fn find_lowered_first_match() {
    let names = vec!["a".to_string(), "b".to_string(), "a".to_string()];
    assert_eq!(find_lowered(&names, &"a".to_string()), Some(0));
    assert_eq!(find_lowered(&names, &"b".to_string()), Some(1));
    assert_eq!(find_lowered(&names, &"A".to_string()), None);
}

#[test]
fn first_ipv4_address() {
    assert_eq!(lookup_ipv4(&vec![false, true, true]), 1);
    assert_eq!(lookup_ipv4(&vec![true]), 0);
}
