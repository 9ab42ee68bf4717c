//! The backend dispatcher: resolves a site's management-plane technology
//! once, at construction, and stamps every capability call with that fixed
//! selection.
//!
//! Construction is cheap and synchronous; it only parses the technology tag
//! and stores configuration. An unknown tag fails construction with
//! `InvalidArgument` before any capability call can be planned.

use vstd::prelude::*;
use vstd::string::*;
use crate::error::ApiError;

verus! {

/// The closed set of management-plane technologies a site can declare.
#[derive(PartialEq, Eq, Structural, Clone, Copy, Debug)]
pub enum BackendTech {
    Csm,
    Ochami,
}

/// One unit of backend functionality, exposed uniformly regardless of
/// technology.
#[derive(PartialEq, Eq, Structural, Clone, Copy, Debug)]
pub enum Capability {
    ListInventory,
    GetInventory,
    AddEndpoint,
    DeleteEndpoint,
    GetBootParameters,
    AddBootParameters,
    DeleteBootParameters,
    PowerOn,
    PowerOff,
    PowerReset,
    PowerStatus,
    GetGroups,
    GetGroup,
    CreateGroup,
    MigrateGroupMembers,
    GetConfigurationSessions,
    OpenLogStream,
    AttachConsole,
}

/// The technology a tag denotes: `"csm"` and `"ochami"` are the supported
/// tags, anything else is unknown.
pub open spec fn spec_parse_backend_tech(tag: Seq<char>) -> Option<BackendTech> {
    if tag == "csm"@ {
        Some(BackendTech::Csm)
    } else if tag == "ochami"@ {
        Some(BackendTech::Ochami)
    } else {
        None
    }
}

/// Parses a technology tag.
pub fn parse_backend_tech(tag: &String) -> (r: Option<BackendTech>)
    ensures
        r == spec_parse_backend_tech(tag@),
{
    if *tag == String::from_str("csm") {
        Some(BackendTech::Csm)
    } else if *tag == String::from_str("ochami") {
        Some(BackendTech::Ochami)
    } else {
        None
    }
}

/// A dispatcher handle for one request: the technology selected from the
/// site's tag at construction, plus the connection configuration every
/// capability call needs. The selection never changes after construction.
pub struct BackendDispatcher {
    pub tech: BackendTech,
    pub base_url: String,
    pub root_cert: Vec<u8>,
}

/// One planned capability call, ready for the transport layer to execute
/// against the concrete client of its `tech`: the dispatcher stamps every
/// plan with the technology fixed at construction.
pub struct CapabilityCall {
    pub tech: BackendTech,
    pub capability: Capability,
    pub base_url: String,
    pub token: String,
    pub targets: Vec<String>,
}

impl BackendDispatcher {
    /// Constructs the dispatcher for a site. A known technology tag yields
    /// a handle carrying exactly that technology and the given connection
    /// configuration; an unknown tag fails with `InvalidArgument` before
    /// any capability call is attempted.
    pub fn new(tech_tag: &String, base_url: &String, root_cert: &Vec<u8>) -> (r: Result<
        BackendDispatcher,
        ApiError,
    >)
        ensures
            match r {
                Ok(d) => {
                    &&& spec_parse_backend_tech(tech_tag@) == Some(d.tech)
                    &&& d.base_url@ == base_url@
                    &&& d.root_cert@ == root_cert@
                },
                Err(e) => {
                    &&& spec_parse_backend_tech(tech_tag@) is None
                    &&& e matches ApiError::InvalidArgument(m) && m@ == spec_unknown_tech_reason(
                        tech_tag@,
                    )
                },
            },
    {
        match parse_backend_tech(tech_tag) {
            Some(tech) => Ok(BackendDispatcher {
                tech,
                base_url: base_url.clone(),
                root_cert: root_cert.clone(),
            }),
            None => {
                let mut reason = String::from_str("Unknown backend technology '");
                reason.append(tech_tag.as_str());
                reason.append("'");
                Err(ApiError::InvalidArgument(reason))
            },
        }
    }

    /// Plans one capability call: the plan carries the dispatcher's fixed
    /// technology, its connection configuration, the caller's token and the
    /// call's target identifiers.
    pub fn plan(&self, capability: Capability, token: &String, targets: &Vec<String>) -> (c:
        CapabilityCall)
        ensures
            c.tech == self.tech,
            c.capability == capability,
            c.base_url@ == self.base_url@,
            c.token@ == token@,
            c.targets@ == targets@,
    {
        CapabilityCall {
            tech: self.tech,
            capability,
            base_url: self.base_url.clone(),
            token: token.clone(),
            targets: clone_strings(targets),
        }
    }
}

/// The reason line reported for an unknown technology tag.
pub open spec fn spec_unknown_tech_reason(tag: Seq<char>) -> Seq<char> {
    "Unknown backend technology '"@ + tag + "'"@
}

/// Clones a vector of strings, element for element.
pub(crate) fn clone_strings(v: &Vec<String>) -> (r: Vec<String>)
    ensures
        r@ == v@,
{
    let mut r: Vec<String> = Vec::new();
    let n = v.len();
    let mut i: usize = 0;
    while i < n
        invariant
            i <= n,
            n == v@.len(),
            r@ == v@.take(i as int),
        decreases n - i,
    {
        r.push(v[i].clone());
        proof {
            assert(r@ =~= v@.take(i as int + 1));
        }
        i = i + 1;
    }
    proof {
        assert(v@.take(n as int) =~= v@);
    }
    r
}

/// Law: dispatch is exclusive. A capability call planned by a dispatcher
/// carries that dispatcher's technology, so two dispatchers built for
/// sites with different technology tags never route a call to the same
/// backend variant; in particular a call planned by a `csm`-tagged
/// dispatcher is never handed to the `ochami` client, and conversely.
pub proof fn lemma_dispatch_exclusive(
    d1: BackendDispatcher,
    d2: BackendDispatcher,
    c1: CapabilityCall,
    c2: CapabilityCall,
)
    requires
        c1.tech == d1.tech,
        c2.tech == d2.tech,
        d1.tech != d2.tech,
    ensures
        c1.tech != c2.tech,
        d1.tech == BackendTech::Csm ==> c1.tech != BackendTech::Ochami,
        d2.tech == BackendTech::Ochami ==> c2.tech != BackendTech::Csm,
{
}

} // verus!
