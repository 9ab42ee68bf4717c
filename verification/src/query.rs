//! The kernel-parameters query pipeline: grouping raw query entries by
//! key, vetting them against the route's rules, shaping the backend's
//! boot-parameter records, and deciding the reply when nodes are missing.

use vstd::prelude::*;
use vstd::string::*;
use crate::error::{ApiError, ErrorResponse};

verus! {

/// The keys of `s` in order of first occurrence, each once.
pub open spec fn spec_distinct_keys(s: Seq<(String, String)>) -> Seq<Seq<char>>
    decreases s.len(),
{
    if s.len() == 0 {
        Seq::empty()
    } else {
        let d = spec_distinct_keys(s.drop_last());
        if d.contains(s.last().0@) {
            d
        } else {
            d.push(s.last().0@)
        }
    }
}

/// All values carried under key `k` in `s`, in order.
pub open spec fn spec_values_for(s: Seq<(String, String)>, k: Seq<char>) -> Seq<Seq<char>>
    decreases s.len(),
{
    if s.len() == 0 {
        Seq::empty()
    } else {
        spec_values_for(s.drop_last(), k) + if s.last().0@ == k {
            seq![s.last().1@]
        } else {
            Seq::empty()
        }
    }
}

/// A key absent from the first-occurrence list carries no values.
pub proof fn lemma_values_absent(s: Seq<(String, String)>, k: Seq<char>)
    requires
        !spec_distinct_keys(s).contains(k),
    ensures
        spec_values_for(s, k) == Seq::<Seq<char>>::empty(),
    decreases s.len(),
{
    if s.len() > 0 {
        let d = spec_distinct_keys(s.drop_last());
        if d.contains(k) {
            let j = choose|j: int| 0 <= j < d.len() && d[j] == k;
            if d.contains(s.last().0@) {
                assert(spec_distinct_keys(s)[j] == k);
            } else {
                assert(spec_distinct_keys(s)[j] == k);
            }
            assert(false);
        }
        lemma_values_absent(s.drop_last(), k);
        if s.last().0@ == k {
            if d.contains(k) {
            } else {
                assert(spec_distinct_keys(s) == d.push(k));
                assert(spec_distinct_keys(s)[d.len() as int] == k);
                assert(false);
            }
        }
        assert(spec_values_for(s, k) =~= Seq::<Seq<char>>::empty());
    }
}

/// The grouped form of raw query entries: one entry per distinct key, in
/// first-occurrence order, holding all of that key's values in order.
pub open spec fn spec_is_grouping(s: Seq<(String, String)>, m: Seq<(String, Vec<String>)>) -> bool {
    &&& m.len() == spec_distinct_keys(s).len()
    &&& forall|j: int| 0 <= j < m.len() ==> m[j].0@ == spec_distinct_keys(s)[j]
    &&& forall|j: int| 0 <= j < m.len() ==> m[j].1.deep_view() == spec_values_for(s, m[j].0@)
}

/// Finds the entry of `m` carrying `key`.
fn find_key(m: &Vec<(String, Vec<String>)>, key: &String) -> (r: Option<usize>)
    ensures
        match r {
            Some(j) => j < m@.len() && m@[j as int].0@ == key@,
            None => forall|j: int| 0 <= j < m@.len() ==> m@[j].0@ != key@,
        },
{
    let n = m.len();
    let mut i: usize = 0;
    while i < n
        invariant
            i <= n,
            n == m@.len(),
            forall|j: int| 0 <= j < i ==> m@[j].0@ != key@,
        decreases n - i,
    {
        if m[i].0 == *key {
            return Some(i);
        }
        i = i + 1;
    }
    None
}

/// Groups raw query entries by key: each distinct key once, in order of
/// first occurrence, with every value given under it, in order.
pub fn adjust_get_entries(entries: &Vec<(String, String)>) -> (m: Vec<(String, Vec<String>)>)
    ensures
        spec_is_grouping(entries@, m@),
        forall|j: int, k: int| 0 <= j < k < m@.len() ==> m@[j].0@ != m@[k].0@,
{
    let n = entries.len();
    let mut m: Vec<(String, Vec<String>)> = Vec::new();
    let mut i: usize = 0;
    while i < n
        invariant
            i <= n,
            n == entries@.len(),
            spec_is_grouping(entries@.take(i as int), m@),
            forall|j: int, k: int| 0 <= j < k < m@.len() ==> m@[j].0@ != m@[k].0@,
        decreases n - i,
    {
        let ghost t = entries@.take(i as int);
        let ghost t1 = entries@.take(i as int + 1);
        let ghost e = entries@[i as int];
        proof {
            assert(t1.drop_last() =~= t);
            assert(t1.last() == e);
        }
        let key = &entries[i].0;
        let value = &entries[i].1;
        match find_key(&m, key) {
            Some(idx) => {
                let ghost old_m = m@;
                let ghost d = spec_distinct_keys(t);
                proof {
                    assert(d.contains(e.0@)) by {
                        assert(d[idx as int] == e.0@);
                    }
                    assert(spec_distinct_keys(t1) == d);
                }
                let mut pair = m.remove(idx);
                let ghost old_vals = pair.1.deep_view();
                pair.1.push(value.clone());
                proof {
                    assert(pair.1.deep_view() =~= old_vals.push(e.1@));
                }
                m.insert(idx, pair);
                proof {
                    assert(m@ =~= old_m.update(idx as int, (old_m[idx as int].0, pair.1)));
                    assert forall|j: int| 0 <= j < m@.len() implies m@[j].1.deep_view()
                        == spec_values_for(t1, m@[j].0@) by {
                        if j == idx {
                            assert(spec_values_for(t1, e.0@) == spec_values_for(t, e.0@)
                                + seq![e.1@]);
                            assert(m@[j].1.deep_view() =~= spec_values_for(t1, m@[j].0@));
                        } else {
                            assert(m@[j].0@ != e.0@);
                            assert(spec_values_for(t1, m@[j].0@) =~= spec_values_for(
                                t,
                                m@[j].0@,
                            ));
                        }
                    }
                }
            },
            None => {
                let ghost old_m = m@;
                let ghost d = spec_distinct_keys(t);
                proof {
                    assert(!d.contains(e.0@)) by {
                        if d.contains(e.0@) {
                            let j = choose|j: int| 0 <= j < d.len() && d[j] == e.0@;
                            assert(old_m[j].0@ == e.0@);
                        }
                    }
                    assert(spec_distinct_keys(t1) == d.push(e.0@));
                    lemma_values_absent(t, e.0@);
                }
                let mut vals: Vec<String> = Vec::new();
                vals.push(value.clone());
                proof {
                    assert(vals.deep_view() =~= seq![e.1@]);
                }
                m.push((key.clone(), vals));
                proof {
                    assert(m@ =~= old_m.push((*key, vals)));
                    assert forall|j: int| 0 <= j < m@.len() implies m@[j].1.deep_view()
                        == spec_values_for(t1, m@[j].0@) by {
                        if j < old_m.len() {
                            assert(m@[j] == old_m[j]);
                            assert(m@[j].0@ != e.0@);
                            assert(spec_values_for(t1, m@[j].0@) =~= spec_values_for(
                                t,
                                m@[j].0@,
                            ));
                        } else {
                            assert(m@[j].1.deep_view() =~= seq![e.1@]);
                            assert(spec_values_for(t1, e.0@) =~= seq![e.1@]);
                        }
                    }
                }
            },
        }
        i = i + 1;
    }
    proof {
        assert(entries@.take(n as int) =~= entries@);
    }
    m
}

/// The complaint when the query does not carry exactly one `dc`.
pub open spec fn spec_dc_msg() -> Seq<char> {
    "One and only \"dc\" must be specified!"@
}

/// The complaint when the query carries no `node`.
pub open spec fn spec_node_msg() -> Seq<char> {
    "At least one \"node\" must be specified!"@
}

/// The complaint about a key this route does not know.
pub open spec fn spec_unrecognized_msg(k: Seq<char>) -> Seq<char> {
    "Unrecognized key \""@ + k + "\""@
}

/// Whether a grouped entry violates the route's rules: a key other than
/// `dc` and `node` is unknown, and `dc` must carry exactly one value.
pub open spec fn spec_entry_bad(key: Seq<char>, nvals: nat) -> bool {
    (key != "dc"@ && key != "node"@) || (key == "dc"@ && nvals != 1)
}

/// The complaint raised for a violating entry.
pub open spec fn spec_entry_bad_msg(key: Seq<char>) -> Seq<char> {
    if key == "dc"@ {
        spec_dc_msg()
    } else {
        spec_unrecognized_msg(key)
    }
}

/// Vets grouped query entries: every key must be `dc` or `node`, `dc`
/// must appear with exactly one value, and `node` must appear. The first
/// violating entry decides the complaint; with none, a missing `dc` is
/// complained about before a missing `node`.
pub fn vet_get_entries(map: &Vec<(String, Vec<String>)>) -> (r: Result<(), String>)
    ensures
        match r {
            Ok(_) => {
                &&& forall|j: int|
                    0 <= j < map@.len() ==> !spec_entry_bad(map@[j].0@, map@[j].1@.len())
                &&& exists|j: int| 0 <= j < map@.len() && map@[j].0@ == "dc"@
                &&& exists|j: int| 0 <= j < map@.len() && map@[j].0@ == "node"@
            },
            Err(msg) => {
                ||| exists|b: int|
                    #![trigger map@[b]]
                    0 <= b < map@.len() && spec_entry_bad(map@[b].0@, map@[b].1@.len()) && (
                    forall|j: int| 0 <= j < b ==> !spec_entry_bad(map@[j].0@, map@[j].1@.len()))
                        && msg@ == spec_entry_bad_msg(map@[b].0@)
                ||| ((forall|j: int|
                    0 <= j < map@.len() ==> !spec_entry_bad(map@[j].0@, map@[j].1@.len())) && (
                forall|j: int| 0 <= j < map@.len() ==> map@[j].0@ != "dc"@) && msg@
                    == spec_dc_msg())
                ||| ((forall|j: int|
                    0 <= j < map@.len() ==> !spec_entry_bad(map@[j].0@, map@[j].1@.len())) && (
                exists|j: int| 0 <= j < map@.len() && map@[j].0@ == "dc"@) && (forall|j: int|
                    0 <= j < map@.len() ==> map@[j].0@ != "node"@) && msg@ == spec_node_msg())
            },
        },
{
    let dc = String::from_str("dc");
    let node = String::from_str("node");
    let n = map.len();
    let mut dc_found = false;
    let mut node_found = false;
    let mut i: usize = 0;
    while i < n
        invariant
            i <= n,
            n == map@.len(),
            dc@ == "dc"@,
            node@ == "node"@,
            forall|j: int| 0 <= j < i ==> !spec_entry_bad(map@[j].0@, map@[j].1@.len()),
            dc_found ==> exists|j: int| 0 <= j < i && map@[j].0@ == "dc"@,
            !dc_found ==> forall|j: int| 0 <= j < i ==> map@[j].0@ != "dc"@,
            node_found ==> exists|j: int| 0 <= j < i && map@[j].0@ == "node"@,
            !node_found ==> forall|j: int| 0 <= j < i ==> map@[j].0@ != "node"@,
        decreases n - i,
    {
        let key = &map[i].0;
        if *key == dc {
            dc_found = true;
            proof {
                assert("dc"@ != "node"@) by {
                    reveal_strlit("dc");
                    reveal_strlit("node");
                    assert("dc"@.len() == 2);
                    assert("node"@.len() == 4);
                }
                assert(map@[i as int].0@ == "dc"@);
            }
            if map[i].1.len() != 1 {
                return Err(String::from_str("One and only \"dc\" must be specified!"));
            }
        } else if *key == node {
            node_found = true;
            proof {
                assert(map@[i as int].0@ == "node"@);
            }
        } else {
            let mut msg = String::from_str("Unrecognized key \"");
            msg.append(key.as_str());
            msg.append("\"");
            proof {
                assert(msg@ =~= spec_unrecognized_msg(map@[i as int].0@));
            }
            return Err(msg);
        }
        i = i + 1;
    }
    if !dc_found {
        return Err(String::from_str("One and only \"dc\" must be specified!"));
    }
    if !node_found {
        return Err(String::from_str("At least one \"node\" must be specified!"));
    }
    Ok(())
}

/// Whether the grouped form of the raw entries violates the route's
/// rules at key position `j` of the first-occurrence key list.
pub open spec fn spec_qkey_bad(s: Seq<(String, String)>, j: int) -> bool {
    spec_entry_bad(spec_distinct_keys(s)[j], spec_values_for(s, spec_distinct_keys(s)[j]).len())
}

/// Groups and vets the raw query entries of a kernel-parameters request:
/// the grouped entries on success, or a `400` reply carrying the first
/// complaint `vet_get_entries` raises.
pub fn compute_get_entries(params: &Vec<(String, String)>) -> (r: Result<
    Vec<(String, Vec<String>)>,
    ErrorResponse,
>)
    ensures
        match r {
            Ok(m) => {
                &&& spec_is_grouping(params@, m@)
                &&& forall|j: int|
                    0 <= j < spec_distinct_keys(params@).len() ==> !spec_qkey_bad(params@, j)
                &&& spec_distinct_keys(params@).contains("dc"@)
                &&& spec_distinct_keys(params@).contains("node"@)
            },
            Err(e) => {
                &&& e.code == 400
                &&& {
                    ||| exists|b: int|
                        #![trigger spec_qkey_bad(params@, b)]
                        0 <= b < spec_distinct_keys(params@).len() && spec_qkey_bad(params@, b)
                            && (forall|j: int| 0 <= j < b ==> !spec_qkey_bad(params@, j))
                            && e.reason@ == spec_entry_bad_msg(spec_distinct_keys(params@)[b])
                    ||| ((forall|j: int|
                        0 <= j < spec_distinct_keys(params@).len() ==> !spec_qkey_bad(params@, j))
                        && !spec_distinct_keys(params@).contains("dc"@) && e.reason@
                        == spec_dc_msg())
                    ||| ((forall|j: int|
                        0 <= j < spec_distinct_keys(params@).len() ==> !spec_qkey_bad(params@, j))
                        && spec_distinct_keys(params@).contains("dc"@) && !spec_distinct_keys(
                        params@,
                    ).contains("node"@) && e.reason@ == spec_node_msg())
                }
            },
        },
{
    let m = adjust_get_entries(params);
    let ghost d = spec_distinct_keys(params@);
    proof {
        assert forall|j: int|
            0 <= j < m@.len() implies spec_entry_bad(m@[j].0@, m@[j].1@.len()) == spec_qkey_bad(
            params@,
            j,
        ) by {
            assert(m@[j].1.deep_view().len() == m@[j].1@.len());
        }
        assert((exists|j: int| 0 <= j < m@.len() && m@[j].0@ == "dc"@) <==> d.contains("dc"@)) by {
            if exists|j: int| 0 <= j < m@.len() && m@[j].0@ == "dc"@ {
                let j = choose|j: int| 0 <= j < m@.len() && m@[j].0@ == "dc"@;
                assert(d[j] == "dc"@);
            }
            if d.contains("dc"@) {
                let j = choose|j: int| 0 <= j < d.len() && d[j] == "dc"@;
                assert(m@[j].0@ == "dc"@);
            }
        }
        assert((exists|j: int| 0 <= j < m@.len() && m@[j].0@ == "node"@) <==> d.contains("node"@))
            by {
            if exists|j: int| 0 <= j < m@.len() && m@[j].0@ == "node"@ {
                let j = choose|j: int| 0 <= j < m@.len() && m@[j].0@ == "node"@;
                assert(d[j] == "node"@);
            }
            if d.contains("node"@) {
                let j = choose|j: int| 0 <= j < d.len() && d[j] == "node"@;
                assert(m@[j].0@ == "node"@);
            }
        }
    }
    match vet_get_entries(&m) {
        Ok(_) => {
            proof {
                assert forall|j: int| 0 <= j < d.len() implies !spec_qkey_bad(params@, j) by {
                    assert(!spec_entry_bad(m@[j].0@, m@[j].1@.len()));
                }
            }
            Ok(m)
        },
        Err(msg) => {
            proof {
                if exists|b: int|
                    #![trigger m@[b]]
                    0 <= b < m@.len() && spec_entry_bad(m@[b].0@, m@[b].1@.len()) && (forall|j: int|
                        0 <= j < b ==> !spec_entry_bad(m@[j].0@, m@[j].1@.len())) && msg@
                        == spec_entry_bad_msg(m@[b].0@) {
                    let b = choose|b: int|
                        #![trigger m@[b]]
                        0 <= b < m@.len() && spec_entry_bad(m@[b].0@, m@[b].1@.len()) && (forall|
                            j: int,
                        |
                            0 <= j < b ==> !spec_entry_bad(m@[j].0@, m@[j].1@.len())) && msg@
                            == spec_entry_bad_msg(m@[b].0@);
                    assert(spec_qkey_bad(params@, b));
                    assert forall|j: int| 0 <= j < b implies !spec_qkey_bad(params@, j) by {
                        assert(!spec_entry_bad(m@[j].0@, m@[j].1@.len()));
                    }
                    assert(msg@ == spec_entry_bad_msg(d[b]));
                } else {
                    assert forall|j: int|
                        0 <= j < d.len() implies !spec_qkey_bad(params@, j) by {
                        assert(!spec_entry_bad(m@[j].0@, m@[j].1@.len()));
                    }
                }
            }
            Err(crate::error::error_respond(400, msg))
        },
    }
}

/// Reads the targets of a vetted kernel-parameters query out of the
/// grouped entries: the data centre named under the first `dc` entry's
/// first value, and every requested node under the first `node` entry.
/// Entries that a vetted query always has are still looked up, never
/// trusted blindly: their absence yields `None` instead of a panic.
pub fn query_targets(m: &Vec<(String, Vec<String>)>) -> (r: Option<(String, Vec<String>)>)
    ensures
        match r {
            Some(p) => {
                &&& exists|j: int|
                    #![trigger m@[j]]
                    0 <= j < m@.len() && m@[j].0@ == "dc"@ && m@[j].1@.len() > 0 && p.0
                        == m@[j].1@[0]
                &&& exists|j: int|
                    #![trigger m@[j]]
                    0 <= j < m@.len() && m@[j].0@ == "node"@ && p.1@ == m@[j].1@
            },
            None => {
                ||| forall|j: int| 0 <= j < m@.len() ==> m@[j].0@ != "dc"@
                ||| forall|j: int| 0 <= j < m@.len() ==> m@[j].0@ != "node"@
                ||| exists|j: int|
                    #![trigger m@[j]]
                    0 <= j < m@.len() && m@[j].0@ == "dc"@ && m@[j].1@.len() == 0
            },
        },
{
    let dc_idx = match find_key(m, &String::from_str("dc")) {
        Some(j) => j,
        None => { return None },
    };
    let node_idx = match find_key(m, &String::from_str("node")) {
        Some(j) => j,
        None => { return None },
    };
    if m[dc_idx].1.len() == 0 {
        return None;
    }
    let dc = m[dc_idx].1[0].clone();
    let nodes = crate::dispatcher::clone_strings(&m[node_idx].1);
    Some((dc, nodes))
}

/// One boot-parameters record as the backend reports it: the nodes it
/// applies to and their kernel parameters line.
pub struct BootParam {
    pub hosts: Vec<String>,
    pub params: String,
}

/// The first hosts of `bps`, each once, in order of first occurrence.
pub open spec fn spec_bp_keys(bps: Seq<BootParam>) -> Seq<Seq<char>>
    decreases bps.len(),
{
    if bps.len() == 0 {
        Seq::empty()
    } else {
        let d = spec_bp_keys(bps.drop_last());
        if d.contains(bps.last().hosts@[0]@) {
            d
        } else {
            d.push(bps.last().hosts@[0]@)
        }
    }
}

/// The parameters line of the last record whose first host is `k`.
pub open spec fn spec_bp_value(bps: Seq<BootParam>, k: Seq<char>) -> Seq<char>
    decreases bps.len(),
{
    if bps.len() == 0 {
        Seq::empty()
    } else if bps.last().hosts@[0]@ == k {
        bps.last().params@
    } else {
        spec_bp_value(bps.drop_last(), k)
    }
}

/// Finds the entry of `m` carrying `key`.
fn find_map_key(m: &Vec<(String, String)>, key: &String) -> (r: Option<usize>)
    ensures
        match r {
            Some(j) => j < m@.len() && m@[j as int].0@ == key@,
            None => forall|j: int| 0 <= j < m@.len() ==> m@[j].0@ != key@,
        },
{
    let n = m.len();
    let mut i: usize = 0;
    while i < n
        invariant
            i <= n,
            n == m@.len(),
            forall|j: int| 0 <= j < i ==> m@[j].0@ != key@,
        decreases n - i,
    {
        if m[i].0 == *key {
            return Some(i);
        }
        i = i + 1;
    }
    None
}

/// Shapes the backend's boot-parameter records into a map from node name
/// to kernel parameters: each record files under its first host, a later
/// record for the same host replaces the earlier one, and hosts keep
/// their order of first appearance. A record without hosts is an
/// `Internal` error instead of trusted data.
pub fn boot_params_to_map(bps: &Vec<BootParam>) -> (r: Result<Vec<(String, String)>, ApiError>)
    ensures
        match r {
            Ok(m) => {
                &&& forall|i: int| 0 <= i < bps@.len() ==> bps@[i].hosts@.len() > 0
                &&& m@.len() == spec_bp_keys(bps@).len()
                &&& forall|j: int| 0 <= j < m@.len() ==> m@[j].0@ == spec_bp_keys(bps@)[j]
                &&& forall|j: int| 0 <= j < m@.len() ==> m@[j].1@ == spec_bp_value(bps@, m@[j].0@)
                &&& forall|j: int, k: int| 0 <= j < k < m@.len() ==> m@[j].0@ != m@[k].0@
            },
            Err(e) => (exists|i: int| 0 <= i < bps@.len() && bps@[i].hosts@.len() == 0) && (e
                matches ApiError::Internal(msg) && msg@
                == "boot parameter record without hosts"@),
        },
{
    let n = bps.len();
    let mut m: Vec<(String, String)> = Vec::new();
    let mut i: usize = 0;
    while i < n
        invariant
            i <= n,
            n == bps@.len(),
            forall|i2: int| 0 <= i2 < i ==> bps@[i2].hosts@.len() > 0,
            m@.len() == spec_bp_keys(bps@.take(i as int)).len(),
            forall|j: int| 0 <= j < m@.len() ==> m@[j].0@ == spec_bp_keys(bps@.take(i as int))[j],
            forall|j: int|
                0 <= j < m@.len() ==> m@[j].1@ == spec_bp_value(bps@.take(i as int), m@[j].0@),
            forall|j: int, k: int| 0 <= j < k < m@.len() ==> m@[j].0@ != m@[k].0@,
        decreases n - i,
    {
        let ghost t = bps@.take(i as int);
        let ghost t1 = bps@.take(i as int + 1);
        let ghost e = bps@[i as int];
        proof {
            assert(t1.drop_last() =~= t);
            assert(t1.last() == e);
        }
        if bps[i].hosts.len() == 0 {
            return Err(ApiError::Internal(String::from_str(
                "boot parameter record without hosts",
            )));
        }
        let key = &bps[i].hosts[0];
        let value = &bps[i].params;
        let ghost d = spec_bp_keys(t);
        match find_map_key(&m, key) {
            Some(idx) => {
                let ghost old_m = m@;
                proof {
                    assert(d.contains(e.hosts@[0]@)) by {
                        assert(d[idx as int] == e.hosts@[0]@);
                    }
                    assert(spec_bp_keys(t1) == d);
                }
                m.set(idx, (key.clone(), value.clone()));
                proof {
                    assert forall|j: int| 0 <= j < m@.len() implies m@[j].1@ == spec_bp_value(
                        t1,
                        m@[j].0@,
                    ) by {
                        if j != idx {
                            assert(m@[j].0@ != e.hosts@[0]@);
                        }
                    }
                }
            },
            None => {
                let ghost old_m = m@;
                proof {
                    assert(!d.contains(e.hosts@[0]@)) by {
                        if d.contains(e.hosts@[0]@) {
                            let j = choose|j: int| 0 <= j < d.len() && d[j] == e.hosts@[0]@;
                            assert(old_m[j].0@ == e.hosts@[0]@);
                        }
                    }
                    assert(spec_bp_keys(t1) == d.push(e.hosts@[0]@));
                }
                m.push((key.clone(), value.clone()));
                proof {
                    assert forall|j: int| 0 <= j < m@.len() implies m@[j].1@ == spec_bp_value(
                        t1,
                        m@[j].0@,
                    ) by {
                        if j < old_m.len() {
                            assert(m@[j] == old_m[j]);
                            assert(m@[j].0@ != e.hosts@[0]@);
                        }
                    }
                }
            },
        }
        i = i + 1;
    }
    proof {
        assert(bps@.take(n as int) =~= bps@);
    }
    Ok(m)
}

/// Whether the map binds node name `k`.
pub open spec fn spec_map_has_key(m: Seq<(String, String)>, k: Seq<char>) -> bool {
    exists|j: int| 0 <= j < m.len() && m[j].0@ == k
}

/// The requested nodes the map does not answer for, in request order.
pub open spec fn spec_missing(req: Seq<String>, m: Seq<(String, String)>) -> Seq<String>
    decreases req.len(),
{
    if req.len() == 0 {
        Seq::empty()
    } else {
        spec_missing(req.drop_last(), m) + if !spec_map_has_key(m, req.last()@) {
            seq![req.last()]
        } else {
            Seq::empty()
        }
    }
}

/// Collects the requested nodes the map does not answer for, in request
/// order.
pub fn missing_nodes(requested: &Vec<String>, m: &Vec<(String, String)>) -> (r: Vec<String>)
    ensures
        r@ == spec_missing(requested@, m@),
{
    let mut r: Vec<String> = Vec::new();
    let n = requested.len();
    let mut i: usize = 0;
    while i < n
        invariant
            i <= n,
            n == requested@.len(),
            r@ == spec_missing(requested@.take(i as int), m@),
        decreases n - i,
    {
        let absent = match find_map_key(m, &requested[i]) {
            Some(_) => false,
            None => true,
        };
        proof {
            if !absent {
                assert(spec_map_has_key(m@, requested@[i as int]@));
            }
        }
        if absent {
            r.push(requested[i].clone());
        }
        proof {
            assert(requested@.take(i as int + 1).drop_last() =~= requested@.take(i as int));
            assert(requested@.take(i as int + 1).last() == requested@[i as int]);
            assert(r@ =~= spec_missing(requested@.take(i as int + 1), m@));
        }
        i = i + 1;
    }
    proof {
        assert(requested@.take(n as int) =~= requested@);
    }
    r
}

/// The decimal digit for a value below ten.
pub open spec fn spec_digit(n: int) -> char {
    if n == 0 { '0' } else if n == 1 { '1' } else if n == 2 { '2' } else if n == 3 { '3' }
    else if n == 4 { '4' } else if n == 5 { '5' } else if n == 6 { '6' } else if n == 7 { '7' }
    else if n == 8 { '8' } else { '9' }
}

/// The decimal rendering of `n`, most significant digit first, without
/// leading zeros (a lone zero for zero).
pub open spec fn spec_dec_str(n: nat) -> Seq<char>
    decreases n,
{
    if n < 10 {
        seq![spec_digit(n as int)]
    } else {
        spec_dec_str(n / 10) + seq![spec_digit((n % 10) as int)]
    }
}

fn digit_str(n: usize) -> (r: &'static str)
    requires
        n < 10,
    ensures
        r@ == seq![spec_digit(n as int)],
{
    let r = match n {
        0 => "0", 1 => "1", 2 => "2", 3 => "3", 4 => "4",
        5 => "5", 6 => "6", 7 => "7", 8 => "8", _ => "9",
    };
    proof {
        reveal_strlit("0"); reveal_strlit("1"); reveal_strlit("2"); reveal_strlit("3");
        reveal_strlit("4"); reveal_strlit("5"); reveal_strlit("6"); reveal_strlit("7");
        reveal_strlit("8"); reveal_strlit("9");
        assert(r@ =~= seq![spec_digit(n as int)]);
    }
    r
}

/// Renders `n` in decimal.
pub fn usize_to_string(n: usize) -> (s: String)
    ensures
        s@ == spec_dec_str(n as nat),
    decreases n,
{
    if n < 10 {
        digit_str(n).to_owned()
    } else {
        let mut s = usize_to_string(n / 10);
        s.append(digit_str(n % 10));
        s
    }
}

/// `parts` joined with commas, in order, nothing before the first part or
/// after the last.
pub open spec fn spec_join_comma(parts: Seq<String>) -> Seq<char>
    decreases parts.len(),
{
    if parts.len() == 0 {
        Seq::empty()
    } else if parts.len() == 1 {
        parts[0]@
    } else {
        spec_join_comma(parts.drop_last()) + seq![','] + parts.last()@
    }
}

/// Joins `parts` with commas.
fn join_comma(parts: &Vec<String>) -> (s: String)
    ensures
        s@ == spec_join_comma(parts@),
{
    let mut s = String::new();
    let n = parts.len();
    let mut i: usize = 0;
    while i < n
        invariant
            i <= n,
            n == parts@.len(),
            s@ == spec_join_comma(parts@.take(i as int)),
        decreases n - i,
    {
        if i > 0 {
            s.append(",");
            proof {
                reveal_strlit(",");
            }
        }
        s.append(parts[i].as_str());
        proof {
            assert(parts@.take(i as int + 1).drop_last() =~= parts@.take(i as int));
            assert(parts@.take(i as int + 1).last() == parts@[i as int]);
            assert(","@ =~= seq![',']) by {
                reveal_strlit(",");
            }
            assert(s@ =~= spec_join_comma(parts@.take(i as int + 1)));
        }
        i = i + 1;
    }
    proof {
        assert(parts@.take(n as int) =~= parts@);
    }
    s
}

/// The `404` reason reported when requested nodes have no kernel
/// parameters: how many are missing, with the plural `s` for more than
/// one, and their names.
pub open spec fn spec_missing_msg(count: nat, missing: Seq<String>) -> Seq<char> {
    spec_dec_str(count) + " node"@ + (if count != 1 {
        "s"@
    } else {
        Seq::<char>::empty()
    }) + " missing: "@ + spec_join_comma(missing)
}

/// Decides the kernel-parameters reply. An answer for every requested
/// node proceeds; fewer answers than nodes is a `404` naming the missing
/// nodes; more answers than nodes can only mean a backend fault and is an
/// internal error, never trusted data.
pub fn kernel_parameters_reply(xnames: &Vec<String>, m: &Vec<(String, String)>) -> (r: Result<
    (),
    ErrorResponse,
>)
    ensures
        r is Ok <==> m@.len() == xnames@.len(),
        m@.len() < xnames@.len() ==> (r matches Err(e) && e.code == 404 && e.reason@
            == spec_missing_msg((xnames@.len() - m@.len()) as nat, spec_missing(xnames@, m@))),
        m@.len() > xnames@.len() ==> (r matches Err(e) && e.code == 500 && e.reason@
            == "more kernel parameter records than requested nodes"@),
{
    let have = m.len();
    let want = xnames.len();
    if have == want {
        Ok(())
    } else if have < want {
        let difference = want - have;
        let missing = missing_nodes(xnames, m);
        let mut reason = usize_to_string(difference);
        reason.append(" node");
        if difference != 1 {
            reason.append("s");
        }
        reason.append(" missing: ");
        let joined = join_comma(&missing);
        reason.append(joined.as_str());
        proof {
            assert(reason@ =~= spec_missing_msg(
                (xnames@.len() - m@.len()) as nat,
                spec_missing(xnames@, m@),
            ));
        }
        Err(crate::error::error_respond(404, reason))
    } else {
        Err(crate::error::error_respond(
            500,
            String::from_str("more kernel parameter records than requested nodes"),
        ))
    }
}

} // verus!
