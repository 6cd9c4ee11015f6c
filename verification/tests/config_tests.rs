use cita_gossip::client::TlsVersion;
use cita_gossip::config::{check_versions, make_config, ClientArgs, ConfigError, RootSource};

fn args() -> ClientArgs {
    ClientArgs {
        flag_port: None,
        flag_http: false,
        flag_verbose: false,
        flag_protover: vec![],
        flag_suite: vec![],
        flag_proto: vec![],
        flag_mtu: None,
        flag_cafile: None,
        flag_cache: None,
        flag_no_tickets: false,
        flag_no_sni: false,
        flag_insecure: false,
        flag_auth_key: None,
        flag_auth_certs: None,
        arg_hostname: "example.com".to_string(),
    }
}

fn suites() -> Vec<String> {
    vec!["TLS13_AES_256_GCM_SHA384".to_string(), "TLS13_AES_128_GCM_SHA256".to_string()]
}

#[test]
fn default_options_give_default_config() {
    let p = make_config(&args(), &suites()).unwrap();
    assert!(p.ciphersuites.is_none());
    assert!(p.versions.is_none());
    assert!(matches!(p.roots, RootSource::BuiltIn));
    assert!(p.enable_tickets && p.enable_sni);
    assert!(p.cache_file.is_none());
    assert!(p.protocols.is_empty());
    assert_eq!(p.mtu, None);
    assert!(!p.insecure);
    assert!(p.client_auth.is_none());
}

#[test]
fn options_are_carried_into_config() {
    let mut a = args();
    a.flag_suite = vec!["tls13_aes_128_gcm_sha256".to_string()];
    a.flag_protover = vec!["1.3".to_string()];
    a.flag_cafile = Some("ca.cert".to_string());
    a.flag_no_tickets = true;
    a.flag_no_sni = true;
    a.flag_cache = Some("cache".to_string());
    a.flag_proto = vec!["h2".to_string(), "http/1.1".to_string()];
    a.flag_mtu = Some(1200);
    a.flag_insecure = true;
    a.flag_auth_key = Some("key.pem".to_string());
    a.flag_auth_certs = Some("certs.pem".to_string());
    let p = make_config(&a, &suites()).unwrap();
    assert_eq!(p.ciphersuites, Some(vec![1]));
    assert_eq!(p.versions, Some(vec![TlsVersion::TLSv1_3]));
    assert!(matches!(p.roots, RootSource::CaFile(ref f) if f == "ca.cert"));
    assert!(!p.enable_tickets && !p.enable_sni);
    assert_eq!(p.cache_file.as_deref(), Some("cache"));
    assert_eq!(p.protocols, vec!["h2".to_string(), "http/1.1".to_string()]);
    assert_eq!(p.mtu, Some(1200));
    assert!(p.insecure);
    assert_eq!(p.client_auth, Some(("key.pem".to_string(), "certs.pem".to_string())));
}

#[test]
fn unknown_suite_is_reported_by_position() {
    let mut a = args();
    a.flag_suite = vec!["tls13_aes_128_gcm_sha256".to_string(), "rc4".to_string(), "des".to_string()];
    assert_eq!(make_config(&a, &suites()).err(), Some(ConfigError::UnknownSuite(1)));
}

#[test]
fn version_check_finds_first_unknown() {
    assert_eq!(check_versions(&vec!["1.2".to_string(), "1.0".to_string(), "x".to_string()]), Some(1));
    assert_eq!(check_versions(&vec!["1.3".to_string(), "1.2".to_string()]), None);
    assert_eq!(check_versions(&vec![]), None);
}
