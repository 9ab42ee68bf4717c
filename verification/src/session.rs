//! The session orchestrator: the per-request decisions taken before any
//! backend call or WebSocket upgrade — validating the caller, resolving
//! the backend technology, requiring Kubernetes access for streaming
//! routes, and the node-migration and health-check rules.
//!
//! Every function here decides from plain values; the transport performs
//! the decision afterwards.

use vstd::prelude::*;
use vstd::string::*;
use crate::auth::{find_char, get_auth_token, spec_bearer_token, spec_find_char};
use crate::config::{K8sAuth, K8sDetails, SiteEntry};
use crate::dispatcher::{BackendDispatcher, BackendTech, spec_parse_backend_tech, spec_unknown_tech_reason};
use crate::error::ApiError;

verus! {

/// The reason line reported when a streaming route needs Kubernetes
/// access details and the site carries none.
pub open spec fn spec_missing_k8s_reason() -> Seq<char> {
    "k8s section not found in configuration"@
}

/// Everything a console session needs once the pre-upgrade checks have
/// passed: the caller's token, the fixed backend technology, the site and
/// target node, and the site's Kubernetes access details.
pub struct ConsolePlan {
    pub token: String,
    pub tech: BackendTech,
    pub site_name: String,
    pub node: String,
    pub k8s: K8sDetails,
}

/// Everything a log-tail session needs once the pre-upgrade checks have
/// passed.
pub struct LogTailPlan {
    pub token: String,
    pub tech: BackendTech,
    pub site_name: String,
    pub session_name: String,
    pub k8s: K8sDetails,
}

/// Clones a site's Kubernetes access details.
fn clone_k8s(k: &K8sDetails) -> (r: K8sDetails)
    ensures
        r == *k,
{
    K8sDetails {
        api_url: k.api_url.clone(),
        authentication: match &k.authentication {
            K8sAuth::Native {
                certificate_authority_data,
                client_certificate_data,
                client_key_data,
            } => K8sAuth::Native {
                certificate_authority_data: certificate_authority_data.clone(),
                client_certificate_data: client_certificate_data.clone(),
                client_key_data: client_key_data.clone(),
            },
            K8sAuth::Vault { base_url } => K8sAuth::Vault { base_url: base_url.clone() },
        },
    }
}

/// The pre-upgrade checks shared by both streaming routes, in order: the
/// bearer token must be present and well-formed, the site's technology
/// tag must be known, and the site must carry Kubernetes access details.
/// The first failed check decides the error, and no upgrade happens.
fn resolve_stream_session(site: &SiteEntry, auth_header: Option<&String>) -> (r: Result<
    (String, BackendTech, K8sDetails),
    ApiError,
>)
    ensures
        match r {
            Ok(p) => {
                &&& auth_header matches Some(h) && spec_bearer_token(h@) == Some(p.0@)
                &&& spec_parse_backend_tech(site.backend@) == Some(p.1)
                &&& site.k8s matches Some(k) && p.2 == k
            },
            Err(e) => {
                ||| (e is Unauthorized && (auth_header matches Some(h) ==> spec_bearer_token(h@)
                    is None))
                ||| (spec_parse_backend_tech(site.backend@) is None && (e matches
                    ApiError::InvalidArgument(m) && m@ == spec_unknown_tech_reason(site.backend@)))
                ||| (site.k8s is None && (e matches ApiError::Internal(m) && m@
                    == spec_missing_k8s_reason()))
            },
        },
{
    let token = match get_auth_token(auth_header) {
        Ok(t) => t,
        Err(e) => { return Err(e) },
    };
    let dispatcher = match BackendDispatcher::new(
        &site.backend,
        &site.shasta_base_url,
        &site.root_cert,
    ) {
        Ok(d) => d,
        Err(e) => { return Err(e) },
    };
    let k8s = match &site.k8s {
        Some(k) => clone_k8s(k),
        None => {
            return Err(ApiError::Internal(String::from_str(
                "k8s section not found in configuration",
            )))
        },
    };
    Ok((token, dispatcher.tech, k8s))
}

/// Decides a console-attach request before the WebSocket upgrade. The
/// caller must present a well-formed bearer token, the site's technology
/// must be known, and the site must carry Kubernetes access details; a
/// site without them fails here, before any upgrade, never mid-session.
pub fn console_session_request(site: &SiteEntry, auth_header: Option<&String>, node: &String) -> (r:
    Result<ConsolePlan, ApiError>)
    ensures
        match r {
            Ok(p) => {
                &&& auth_header matches Some(h) && spec_bearer_token(h@) == Some(p.token@)
                &&& spec_parse_backend_tech(site.backend@) == Some(p.tech)
                &&& site.k8s matches Some(k) && p.k8s == k
                &&& p.site_name@ == site.name@
                &&& p.node@ == node@
            },
            Err(e) => {
                ||| (e is Unauthorized && (auth_header matches Some(h) ==> spec_bearer_token(h@)
                    is None))
                ||| (spec_parse_backend_tech(site.backend@) is None && (e matches
                    ApiError::InvalidArgument(m) && m@ == spec_unknown_tech_reason(site.backend@)))
                ||| (site.k8s is None && (e matches ApiError::Internal(m) && m@
                    == spec_missing_k8s_reason()))
            },
        },
{
    let (token, tech, k8s) = match resolve_stream_session(site, auth_header) {
        Ok(p) => p,
        Err(e) => { return Err(e) },
    };
    Ok(ConsolePlan {
        token,
        tech,
        site_name: site.name.clone(),
        node: node.clone(),
        k8s,
    })
}

/// Decides a log-tail request before the WebSocket upgrade, under the
/// same pre-upgrade checks as a console request.
pub fn log_session_request(
    site: &SiteEntry,
    auth_header: Option<&String>,
    session_name: &String,
) -> (r: Result<LogTailPlan, ApiError>)
    ensures
        match r {
            Ok(p) => {
                &&& auth_header matches Some(h) && spec_bearer_token(h@) == Some(p.token@)
                &&& spec_parse_backend_tech(site.backend@) == Some(p.tech)
                &&& site.k8s matches Some(k) && p.k8s == k
                &&& p.site_name@ == site.name@
                &&& p.session_name@ == session_name@
            },
            Err(e) => {
                ||| (e is Unauthorized && (auth_header matches Some(h) ==> spec_bearer_token(h@)
                    is None))
                ||| (spec_parse_backend_tech(site.backend@) is None && (e matches
                    ApiError::InvalidArgument(m) && m@ == spec_unknown_tech_reason(site.backend@)))
                ||| (site.k8s is None && (e matches ApiError::Internal(m) && m@
                    == spec_missing_k8s_reason()))
            },
        },
{
    let (token, tech, k8s) = match resolve_stream_session(site, auth_header) {
        Ok(p) => p,
        Err(e) => { return Err(e) },
    };
    Ok(LogTailPlan {
        token,
        tech,
        site_name: site.name.clone(),
        session_name: session_name.clone(),
        k8s,
    })
}

/// The services whose upstream health can be checked.
#[derive(PartialEq, Eq, Structural, Clone, Copy, Debug)]
pub enum HealthService {
    Cfs,
    Bos,
}

/// The service a health-check name denotes: `"cfs"` or `"bos"`.
pub open spec fn spec_parse_health_service(s: Seq<char>) -> Option<HealthService> {
    if s == "cfs"@ {
        Some(HealthService::Cfs)
    } else if s == "bos"@ {
        Some(HealthService::Bos)
    } else {
        None
    }
}

/// Validates a health-check service name; anything but the known services
/// is `InvalidArgument`.
pub fn health_target(service: &String) -> (r: Result<HealthService, ApiError>)
    ensures
        match r {
            Ok(s) => spec_parse_health_service(service@) == Some(s),
            Err(e) => spec_parse_health_service(service@) is None && (e matches
                ApiError::InvalidArgument(m) && m@ == "Invalid service name"@),
        },
{
    if *service == String::from_str("cfs") {
        Ok(HealthService::Cfs)
    } else if *service == String::from_str("bos") {
        Ok(HealthService::Bos)
    } else {
        Err(ApiError::InvalidArgument(String::from_str("Invalid service name")))
    }
}

/// Whether some string in `v` reads `x`.
pub open spec fn spec_contains_string(v: Seq<String>, x: Seq<char>) -> bool {
    exists|j: int| 0 <= j < v.len() && v[j]@ == x
}

/// Whether `v` holds a string reading like `x`.
fn contains_string(v: &Vec<String>, x: &String) -> (r: bool)
    ensures
        r == spec_contains_string(v@, x@),
{
    let n = v.len();
    let mut i: usize = 0;
    while i < n
        invariant
            i <= n,
            n == v@.len(),
            forall|j: int| 0 <= j < i ==> v@[j]@ != x@,
        decreases n - i,
    {
        if v[i] == *x {
            return true;
        }
        i = i + 1;
    }
    false
}

/// The labels of `labels` that also stand in `available`, kept in order.
pub open spec fn spec_filter_labels(labels: Seq<String>, available: Seq<String>) -> Seq<String>
    decreases labels.len(),
{
    if labels.len() == 0 {
        Seq::empty()
    } else {
        spec_filter_labels(labels.drop_last(), available) + if spec_contains_string(
            available,
            labels.last()@,
        ) {
            seq![labels.last()]
        } else {
            Seq::empty()
        }
    }
}

/// Keeps only the groups whose label the caller may see: the labels of
/// `labels` that also stand in `available`, in their original order.
pub fn filter_available_group_labels(labels: &Vec<String>, available: &Vec<String>) -> (r: Vec<
    String,
>)
    ensures
        r@ == spec_filter_labels(labels@, available@),
{
    let mut r: Vec<String> = Vec::new();
    let n = labels.len();
    let mut i: usize = 0;
    while i < n
        invariant
            i <= n,
            n == labels@.len(),
            r@ == spec_filter_labels(labels@.take(i as int), available@),
        decreases n - i,
    {
        if contains_string(available, &labels[i]) {
            r.push(labels[i].clone());
        }
        proof {
            assert(labels@.take(i as int + 1).drop_last() =~= labels@.take(i as int));
            assert(labels@.take(i as int + 1).last() == labels@[i as int]);
            assert(r@ =~= spec_filter_labels(labels@.take(i as int + 1), available@));
        }
        i = i + 1;
    }
    proof {
        assert(labels@.take(n as int) =~= labels@);
    }
    r
}

/// What a node-migration request does about its target group.
#[derive(PartialEq, Eq, Structural, Clone, Copy, Debug)]
pub enum MigrationDecision {
    /// The target group exists: migrate.
    Proceed,
    /// The target group is missing but the caller asked to create it:
    /// create it, then migrate.
    CreateThenMigrate,
    /// The target group is missing and creation was not requested: the
    /// request is unprocessable and nothing is changed.
    Reject,
}

/// The migration rule: an existing target proceeds; a missing target is
/// created first when creation was requested, and rejected otherwise.
pub open spec fn spec_plan_migration(target_exists: bool, create_requested: bool)
    -> MigrationDecision {
    if target_exists {
        MigrationDecision::Proceed
    } else if create_requested {
        MigrationDecision::CreateThenMigrate
    } else {
        MigrationDecision::Reject
    }
}

/// Decides a node-migration request from whether its target group exists
/// and whether the caller asked to create a missing target. A rejection
/// is reported as unprocessable before anything is changed.
pub fn plan_migration(target_exists: bool, create_requested: bool) -> (d: MigrationDecision)
    ensures
        d == spec_plan_migration(target_exists, create_requested),
        target_exists ==> d is Proceed,
        !target_exists && create_requested ==> d is CreateThenMigrate,
        !target_exists && !create_requested ==> d is Reject,
{
    if target_exists {
        MigrationDecision::Proceed
    } else if create_requested {
        MigrationDecision::CreateThenMigrate
    } else {
        MigrationDecision::Reject
    }
}

/// ASCII whitespace, as trimmed from the node identifiers of a migration
/// request.
pub open spec fn spec_is_space(c: char) -> bool {
    c == ' ' || c == '\t' || c == '\n' || c == '\r' || c == '\u{b}' || c == '\u{c}'
}

/// `s` without its leading whitespace.
pub open spec fn spec_trim_start(s: Seq<char>) -> Seq<char>
    decreases s.len(),
{
    if s.len() > 0 && spec_is_space(s[0]) {
        spec_trim_start(s.drop_first())
    } else {
        s
    }
}

/// `s` without its trailing whitespace.
pub open spec fn spec_trim_end(s: Seq<char>) -> Seq<char>
    decreases s.len(),
{
    if s.len() > 0 && spec_is_space(s.last()) {
        spec_trim_end(s.drop_last())
    } else {
        s
    }
}

/// `s` without leading and trailing whitespace.
pub open spec fn spec_trim(s: Seq<char>) -> Seq<char> {
    spec_trim_end(spec_trim_start(s))
}

proof fn lemma_trim_start_skip(s: Seq<char>, lo: int)
    requires
        0 <= lo <= s.len(),
        forall|j: int| 0 <= j < lo ==> spec_is_space(s[j]),
        lo < s.len() ==> !spec_is_space(s[lo]),
    ensures
        spec_trim_start(s) == s.skip(lo),
    decreases lo,
{
    if lo == 0 {
        assert(s.skip(0) =~= s);
    } else {
        assert(spec_is_space(s[0]));
        assert forall|j: int| 0 <= j < lo - 1 implies spec_is_space(s.drop_first()[j]) by {
            assert(s.drop_first()[j] == s[j + 1]);
        }
        lemma_trim_start_skip(s.drop_first(), lo - 1);
        assert(s.drop_first().skip(lo - 1) =~= s.skip(lo));
    }
}

proof fn lemma_trim_end_take(s: Seq<char>, hi: int)
    requires
        0 <= hi <= s.len(),
        forall|j: int| hi <= j < s.len() ==> spec_is_space(s[j]),
        hi > 0 ==> !spec_is_space(s[hi - 1]),
    ensures
        spec_trim_end(s) == s.take(hi),
    decreases s.len(),
{
    if hi == s.len() {
        assert(s.take(hi) =~= s);
    } else {
        assert(spec_is_space(s.last()));
        assert forall|j: int| hi <= j < s.drop_last().len() implies spec_is_space(
            s.drop_last()[j],
        ) by {
            assert(s.drop_last()[j] == s[j]);
        }
        lemma_trim_end_take(s.drop_last(), hi);
        assert(s.drop_last().take(hi) =~= s.take(hi));
    }
}

fn is_space(c: char) -> (r: bool)
    ensures
        r == spec_is_space(c),
{
    c == ' ' || c == '\t' || c == '\n' || c == '\r' || c == '\u{b}' || c == '\u{c}'
}

/// `s` without surrounding ASCII whitespace.
fn trim_str(s: &str) -> (t: String)
    ensures
        t@ == spec_trim(s@),
{
    let n = s.unicode_len();
    let mut lo: usize = 0;
    while lo < n && is_space(s.get_char(lo))
        invariant
            lo <= n,
            n == s@.len(),
            forall|j: int| 0 <= j < lo ==> spec_is_space(s@[j]),
        decreases n - lo,
    {
        lo = lo + 1;
    }
    let mut hi: usize = n;
    while hi > lo && is_space(s.get_char(hi - 1))
        invariant
            lo <= hi <= n,
            n == s@.len(),
            forall|j: int| hi <= j < n ==> spec_is_space(s@[j]),
        decreases hi,
    {
        hi = hi - 1;
    }
    let t = s.substring_char(lo, hi).to_owned();
    proof {
        lemma_trim_start_skip(s@, lo as int);
        let st = s@.skip(lo as int);
        assert forall|j: int| hi - lo <= j < st.len() implies spec_is_space(st[j]) by {
            assert(st[j] == s@[lo + j]);
        }
        if hi > lo {
            assert(st[hi - lo - 1] == s@[hi - 1]);
        }
        lemma_trim_end_take(st, hi - lo);
        assert(st.take(hi - lo) =~= s@.subrange(lo as int, hi as int));
        assert(t@ == spec_trim(s@));
    }
    t
}

/// `s` split at every `c`, in order; splitting never loses characters
/// other than the separators, and `n` separators yield `n + 1` segments.
pub open spec fn spec_split_all(s: Seq<char>, c: char) -> Seq<Seq<char>>
    decreases s.len(),
{
    let i = spec_find_char(s, c);
    if 0 <= i && i < s.len() {
        seq![s.take(i)] + spec_split_all(s.skip(i + 1), c)
    } else {
        seq![s]
    }
}

/// The node identifiers carried by a migration request's `ids` string:
/// the comma-separated segments, each without surrounding whitespace.
pub open spec fn spec_node_ids(s: Seq<char>) -> Seq<Seq<char>> {
    spec_split_all(s, ',').map_values(|seg: Seq<char>| spec_trim(seg))
}

/// Parses the node identifiers of a migration request: the `ids` string
/// split at commas, each identifier without surrounding whitespace.
pub fn parse_node_ids(ids: &String) -> (r: Vec<String>)
    ensures
        r.deep_view() == spec_node_ids(ids@),
{
    let mut r: Vec<String> = Vec::new();
    let mut rest: String = ids.clone();
    let mut done = false;
    while !done
        invariant
            done ==> r.deep_view() == spec_node_ids(ids@),
            !done ==> r.deep_view() + spec_node_ids(rest@) == spec_node_ids(ids@),
        decreases (if done { 0int } else { rest@.len() as int + 1 }),
    {
        let ghost prev = r.deep_view();
        let n = rest.as_str().unicode_len();
        match find_char(rest.as_str(), ',') {
            None => {
                let t = trim_str(rest.as_str());
                r.push(t);
                done = true;
                proof {
                    assert(spec_split_all(rest@, ',') =~= seq![rest@]);
                    assert(spec_node_ids(rest@) =~= seq![spec_trim(rest@)]);
                    assert(r.deep_view() =~= prev.push(t@));
                    assert(r.deep_view() =~= prev + spec_node_ids(rest@));
                }
            },
            Some(i) => {
                let seg = rest.as_str().substring_char(0, i);
                let t = trim_str(seg);
                r.push(t);
                let new_rest = rest.as_str().substring_char(i + 1, n).to_owned();
                proof {
                    assert(seg@ =~= rest@.take(i as int));
                    assert(new_rest@ =~= rest@.skip(i as int + 1));
                    assert(spec_split_all(rest@, ',') == seq![rest@.take(i as int)]
                        + spec_split_all(rest@.skip(i as int + 1), ','));
                    assert(spec_node_ids(rest@) =~= seq![spec_trim(rest@.take(i as int))]
                        + spec_node_ids(rest@.skip(i as int + 1)));
                    assert(r.deep_view() =~= prev.push(t@));
                    assert(r.deep_view() + spec_node_ids(new_rest@) =~= prev + spec_node_ids(
                        rest@,
                    ));
                }
                rest = new_rest;
            },
        }
    }
    r
}

/// Query parameters of the power-status route.
pub struct PowerStatusQueryParams {
    pub power_state_filter: Option<String>,
    pub management_state_filter: Option<String>,
}

/// Query parameters of the node-migration route: the node identifiers as
/// one comma-separated string, and whether a missing target group should
/// be created.
pub struct NodeMigrationQueryParams {
    pub ids: String,
    pub create_hsm_group: bool,
}

} // verus!
