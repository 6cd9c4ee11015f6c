//! The choices made when a TLS client configuration is assembled from the
//! client's options.

use vstd::prelude::*;
use crate::client::{
    TlsVersion, spec_version, lookup_versions, version_of, find_suite, lookup_suites,
    spec_suite_known, spec_first_match, lowercase, lowercase_all, view_strings,
};

verus! {

/// The client's options, as given on its command line.
pub struct ClientArgs {
    pub flag_port: Option<u16>,
    pub flag_http: bool,
    pub flag_verbose: bool,
    pub flag_protover: Vec<String>,
    pub flag_suite: Vec<String>,
    pub flag_proto: Vec<String>,
    pub flag_mtu: Option<usize>,
    pub flag_cafile: Option<String>,
    pub flag_cache: Option<String>,
    pub flag_no_tickets: bool,
    pub flag_no_sni: bool,
    pub flag_insecure: bool,
    pub flag_auth_key: Option<String>,
    pub flag_auth_certs: Option<String>,
    pub arg_hostname: String,
}

/// Where the trusted root certificates come from.
pub enum RootSource {
    /// The PEM file at this path.
    CaFile(String),
    /// The built-in web roots, together with the built-in certificate
    /// transparency logs.
    BuiltIn,
}

/// What the client configuration is to be.
pub struct ConfigPlan {
    /// The cipher suites to offer, by position among the known suites;
    /// `None` keeps the default list.
    pub ciphersuites: Option<Vec<usize>>,
    /// The protocol versions to offer; `None` keeps the default list.
    pub versions: Option<Vec<TlsVersion>>,
    pub roots: RootSource,
    pub enable_tickets: bool,
    pub enable_sni: bool,
    /// The file the session cache is saved to, if any.
    pub cache_file: Option<String>,
    /// The protocols offered by ALPN.
    pub protocols: Vec<String>,
    pub mtu: Option<usize>,
    /// Whether certificate verification is to be turned off.
    pub insecure: bool,
    /// The client key file and certificate file, when the client
    /// authenticates.
    pub client_auth: Option<(String, String)>,
}

/// Why a configuration cannot be assembled.
#[derive(PartialEq, Eq, Structural, Clone, Copy, Debug)]
pub enum ConfigError {
    /// The suite at this position of `flag_suite` is not known.
    UnknownSuite(usize),
}

/// The view of an optional string.
pub open spec fn opt_view(s: Option<String>) -> Option<Seq<char>> {
    match s {
        Some(s) => Some(s@),
        None => None,
    }
}

/// Every suite asked for is known.
pub open spec fn suites_known(suite_names: Seq<String>, suites: Seq<String>) -> bool {
    forall|i: int| 0 <= i < suites.len() ==> #[trigger] spec_suite_known(suite_names, suites[i]@)
}

/// Every version asked for is `1.2` or `1.3`.
pub open spec fn versions_known(versions: Seq<String>) -> bool {
    forall|i: int| 0 <= i < versions.len() ==> (#[trigger] spec_version(versions[i]@)) is Some
}

/// A client key and client certificates are given together or not at all.
pub open spec fn auth_paired(key: Option<String>, certs: Option<String>) -> bool {
    key is Some == certs is Some
}

/// The options that a configuration can be assembled from.
pub open spec fn args_valid(args: ClientArgs, suite_names: Seq<String>) -> bool {
    &&& suites_known(suite_names, args.flag_suite@)
    &&& versions_known(args.flag_protover@)
    &&& auth_paired(args.flag_auth_key, args.flag_auth_certs)
}

/// The configuration the options ask for: the suites and versions named,
/// when any are; the given CA file, or else the built-in roots; tickets and
/// SNI unless turned off; the cache file, protocols, MTU and insecure flag
/// as given; the client key and certificates when given.
pub open spec fn plan_matches(args: ClientArgs, suite_names: Seq<String>, p: ConfigPlan) -> bool {
    &&& (args.flag_suite@.len() == 0 <==> p.ciphersuites is None)
    &&& (p.ciphersuites matches Some(cs) ==> cs.len() == args.flag_suite.len() && forall|i: int|
        0 <= i < cs.len() ==> Some(cs@[i] as int) == #[trigger] spec_first_match(
            lowercase_all(view_strings(suite_names)),
            lowercase(args.flag_suite@[i]@),
        ))
    &&& (args.flag_protover@.len() == 0 <==> p.versions is None)
    &&& (p.versions matches Some(vs) ==> vs.len() == args.flag_protover.len() && forall|i: int|
        0 <= i < vs.len() ==> vs@[i] == (#[trigger] spec_version(args.flag_protover@[i]@))->0)
    &&& (match args.flag_cafile {
        Some(f) => p.roots matches RootSource::CaFile(g) && g@ == f@,
        None => p.roots is BuiltIn,
    })
    &&& p.enable_tickets == !args.flag_no_tickets
    &&& p.enable_sni == !args.flag_no_sni
    &&& opt_view(p.cache_file) == opt_view(args.flag_cache)
    &&& view_strings(p.protocols@) == view_strings(args.flag_proto@)
    &&& p.mtu == args.flag_mtu
    &&& p.insecure == args.flag_insecure
    &&& (match (args.flag_auth_key, args.flag_auth_certs) {
        (Some(k), Some(c)) => p.client_auth matches Some((pk, pc)) && pk@ == k@ && pc@ == c@,
        _ => p.client_auth is None,
    })
}

fn copy_opt(s: &Option<String>) -> (r: Option<String>)
    ensures
        opt_view(r) == opt_view(*s),
{
    match s {
        Some(s) => Some(s.clone()),
        None => None,
    }
}

fn copy_strings(v: &Vec<String>) -> (r: Vec<String>)
    ensures
        view_strings(r@) == view_strings(v@),
{
    let mut r: Vec<String> = Vec::new();
    let mut i: usize = 0;
    while i < v.len()
        invariant
            i <= v.len(),
            r.len() == i,
            forall|j: int| 0 <= j < i ==> #[trigger] r@[j]@ == v@[j]@,
        decreases v.len() - i,
    {
        r.push(v[i].clone());
        i = i + 1;
    }
    assert(view_strings(r@) =~= view_strings(v@));
    r
}

/// Assembles the configuration the options ask for (see `plan_matches`).
/// The options must name known suites and versions only, and give a client
/// key and client certificates together or not at all.
pub fn plan_config(args: &ClientArgs, suite_names: &Vec<String>) -> (p: ConfigPlan)
    requires
        args_valid(*args, suite_names@),
    ensures
        plan_matches(*args, suite_names@, p),
{
    let ciphersuites = if args.flag_suite.len() != 0 {
        Some(lookup_suites(suite_names, &args.flag_suite))
    } else {
        None
    };
    let versions = if args.flag_protover.len() != 0 {
        Some(lookup_versions(&args.flag_protover))
    } else {
        None
    };
    let roots = match &args.flag_cafile {
        Some(f) => RootSource::CaFile(f.clone()),
        None => RootSource::BuiltIn,
    };
    let client_auth = match (&args.flag_auth_key, &args.flag_auth_certs) {
        (Some(k), Some(c)) => Some((k.clone(), c.clone())),
        _ => None,
    };
    ConfigPlan {
        ciphersuites,
        versions,
        roots,
        enable_tickets: !args.flag_no_tickets,
        enable_sni: !args.flag_no_sni,
        cache_file: copy_opt(&args.flag_cache),
        protocols: copy_strings(&args.flag_proto),
        mtu: args.flag_mtu,
        insecure: args.flag_insecure,
        client_auth,
    }
}

/// Checks the suites named and assembles the configuration the options ask
/// for. Which suites are known is only found by lower-casing their names, so
/// an unknown one is answered with the position of the first such name. The
/// versions named must be `1.2` or `1.3`, and a client key and client
/// certificates must be given together or not at all (other options are
/// refused: "valid are '1.2' and '1.3'", "must provide --auth-key with
/// --auth-certs", "must provide --auth-certs with --auth-key").
pub fn make_config(args: &ClientArgs, suite_names: &Vec<String>) -> (r: Result<ConfigPlan, ConfigError>)
    requires
        versions_known(args.flag_protover@),
        auth_paired(args.flag_auth_key, args.flag_auth_certs),
    ensures
        match r {
            Ok(p) => suites_known(suite_names@, args.flag_suite@) && plan_matches(*args, suite_names@, p),
            Err(ConfigError::UnknownSuite(i)) => i < args.flag_suite.len()
                && !spec_suite_known(suite_names@, args.flag_suite@[i as int]@)
                && forall|j: int| 0 <= j < i ==> #[trigger] spec_suite_known(suite_names@, args.flag_suite@[j]@),
        },
{
    let mut i: usize = 0;
    while i < args.flag_suite.len()
        invariant
            i <= args.flag_suite.len(),
            forall|j: int| 0 <= j < i ==> #[trigger] spec_suite_known(suite_names@, args.flag_suite@[j]@),
        decreases args.flag_suite.len() - i,
    {
        if find_suite(suite_names, args.flag_suite[i].as_str()).is_none() {
            return Err(ConfigError::UnknownSuite(i));
        }
        i = i + 1;
    }
    Ok(plan_config(args, suite_names))
}

/// Whether the versions named are all `1.2` or `1.3`; when not, the
/// position of the first that is neither.
pub fn check_versions(versions: &Vec<String>) -> (r: Option<usize>)
    ensures
        match r {
            None => versions_known(versions@),
            Some(i) => i < versions.len() && spec_version(versions@[i as int]@) is None && forall|j: int|
                0 <= j < i ==> (#[trigger] spec_version(versions@[j]@)) is Some,
        },
{
    let mut i: usize = 0;
    while i < versions.len()
        invariant
            i <= versions.len(),
            forall|j: int| 0 <= j < i ==> (#[trigger] spec_version(versions@[j]@)) is Some,
        decreases versions.len() - i,
    {
        if version_of(&versions[i]).is_none() {
            return Some(i);
        }
        i = i + 1;
    }
    None
}

} // verus!
