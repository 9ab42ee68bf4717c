//! Per-request configuration: the site table as plain values, the
//! resolved per-site configuration, and the per-request context combining
//! it with the caller's bearer token.
//!
//! Reading the configuration source and the trust-root file is transport
//! work outside this crate; the lookup and validation logic here receives
//! the loaded values and is verified.

use vstd::prelude::*;
use vstd::string::*;
use crate::auth::{get_auth_token, spec_bearer_token};
use crate::error::ApiError;

verus! {

/// How the gateway may reach a site's Kubernetes cluster: embedded native
/// credentials, or a reference to a secret-store lookup.
pub enum K8sAuth {
    Native {
        certificate_authority_data: String,
        client_certificate_data: String,
        client_key_data: String,
    },
    Vault { base_url: String },
}

/// A site's Kubernetes access details: the API endpoint and the way to
/// authenticate against it.
pub struct K8sDetails {
    pub api_url: String,
    pub authentication: K8sAuth,
}

/// One managed cluster as the configuration source declares it: its name,
/// backend technology tag, management API base URL, loaded trust-root
/// certificate, and optional Kubernetes access details.
pub struct SiteEntry {
    pub name: String,
    pub backend: String,
    pub shasta_base_url: String,
    pub root_cert: Vec<u8>,
    pub k8s: Option<K8sDetails>,
}

/// The per-site configuration a request resolves: the site's name, its
/// management API base URL and its trust-root certificate.
pub struct SiteCfg {
    pub site: String,
    pub shasta_base_url: String,
    pub shasta_root_cert: Vec<u8>,
}

/// The context of one request: the caller's bearer token and the resolved
/// site configuration. Read-only for the request's lifetime.
pub struct ReqCfg {
    pub auth_token: String,
    pub site_cfg: SiteCfg,
}

/// The first index of the site named `name` in the table, or -1 when the
/// table holds no such site.
pub open spec fn spec_site_index(sites: Seq<SiteEntry>, name: Seq<char>) -> int
    decreases sites.len(),
{
    if sites.len() == 0 {
        -1
    } else if sites[0].name@ == name {
        0
    } else {
        let r = spec_site_index(sites.drop_first(), name);
        if r < 0 {
            -1
        } else {
            r + 1
        }
    }
}

/// `spec_site_index` finds the first entry of that name: -1 exactly when
/// the name is absent, otherwise a valid index with the name and nothing
/// named so before it.
pub proof fn lemma_site_index_props(sites: Seq<SiteEntry>, name: Seq<char>)
    ensures
        (spec_site_index(sites, name) == -1 <==> forall|j: int|
            0 <= j < sites.len() ==> sites[j].name@ != name),
        spec_site_index(sites, name) >= 0 ==> {
            &&& spec_site_index(sites, name) < sites.len()
            &&& sites[spec_site_index(sites, name)].name@ == name
            &&& forall|j: int| 0 <= j < spec_site_index(sites, name) ==> sites[j].name@ != name
        },
    decreases sites.len(),
{
    if sites.len() == 0 {
    } else if sites[0].name@ == name {
    } else {
        lemma_site_index_props(sites.drop_first(), name);
        let r0 = spec_site_index(sites.drop_first(), name);
        if r0 == -1 {
            assert forall|j: int| 0 <= j < sites.len() implies sites[j].name@ != name by {
                if j > 0 {
                    assert(sites.drop_first()[j - 1] == sites[j]);
                }
            }
        } else {
            assert(sites.drop_first()[r0] == sites[r0 + 1]);
            assert forall|j: int| 0 <= j < r0 + 1 implies sites[j].name@ != name by {
                if j > 0 {
                    assert(sites.drop_first()[j - 1] == sites[j]);
                }
            }
        }
    }
}

/// The reason line reported when a site is missing from the table.
pub open spec fn spec_site_not_found_reason(site: Seq<char>) -> Seq<char> {
    "site "@ + site + " not found."@
}

/// Resolves a site's configuration from the loaded site table: the first
/// entry carrying the requested name. An absent site is `NotFound`.
pub fn get_site_cfg(sites: &Vec<SiteEntry>, site: String) -> (r: Result<SiteCfg, ApiError>)
    ensures
        match r {
            Ok(cfg) => {
                &&& spec_site_index(sites@, site@) >= 0
                &&& cfg.site@ == site@
                &&& cfg.shasta_base_url@ == sites@[spec_site_index(
                    sites@,
                    site@,
                )].shasta_base_url@
                &&& cfg.shasta_root_cert@ == sites@[spec_site_index(sites@, site@)].root_cert@
            },
            Err(e) => {
                &&& spec_site_index(sites@, site@) == -1
                &&& e matches ApiError::NotFound(m) && m@ == spec_site_not_found_reason(site@)
            },
        },
{
    let n = sites.len();
    let mut i: usize = 0;
    while i < n
        invariant
            i <= n,
            n == sites@.len(),
            forall|j: int| 0 <= j < i ==> sites@[j].name@ != site@,
        decreases n - i,
    {
        if sites[i].name == site {
            proof {
                lemma_site_index_props(sites@, site@);
            }
            return Ok(SiteCfg {
                site,
                shasta_base_url: sites[i].shasta_base_url.clone(),
                shasta_root_cert: sites[i].root_cert.clone(),
            });
        }
        i = i + 1;
    }
    proof {
        lemma_site_index_props(sites@, site@);
    }
    let mut reason = String::from_str("site ");
    reason.append(site.as_str());
    reason.append(" not found.");
    Err(ApiError::NotFound(reason))
}

/// Builds the context of one request: resolves the site configuration,
/// then validates the caller's bearer token. A missing site fails as
/// `NotFound` before the token is looked at; a missing or malformed token
/// fails as `Unauthorized` before any backend work.
pub fn get_req_cfg(auth_header: Option<&String>, sites: &Vec<SiteEntry>, site: String) -> (r:
    Result<ReqCfg, ApiError>)
    ensures
        match r {
            Ok(rc) => {
                &&& spec_site_index(sites@, site@) >= 0
                &&& auth_header matches Some(h) && spec_bearer_token(h@) == Some(rc.auth_token@)
                &&& rc.site_cfg.site@ == site@
                &&& rc.site_cfg.shasta_base_url@ == sites@[spec_site_index(
                    sites@,
                    site@,
                )].shasta_base_url@
                &&& rc.site_cfg.shasta_root_cert@ == sites@[spec_site_index(
                    sites@,
                    site@,
                )].root_cert@
            },
            Err(e) => {
                ||| (spec_site_index(sites@, site@) == -1 && (e matches ApiError::NotFound(m)
                    && m@ == spec_site_not_found_reason(site@)))
                ||| (spec_site_index(sites@, site@) >= 0 && e is Unauthorized && (
                auth_header matches Some(h) ==> spec_bearer_token(h@) is None))
            },
        },
{
    let site_cfg = match get_site_cfg(sites, site) {
        Ok(good) => good,
        Err(e) => { return Err(e) },
    };
    let auth_token = match get_auth_token(auth_header) {
        Ok(good) => good,
        Err(e) => { return Err(e) },
    };
    Ok(ReqCfg { auth_token, site_cfg })
}

} // verus!
