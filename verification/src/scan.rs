//! Building an ordered, name-keyed scan result from the per-child
//! outcomes of a directory enumeration.
//!
//! The enumeration itself is filesystem work done by the caller; it hands
//! over one record per child. This module resolves each record, keeps the
//! resolved entries in strictly increasing name order with at most one
//! entry per distinct name, and collects the children that failed, in
//! input order. A result with failures is a partial scan failure: the
//! caller sees both what resolved and what did not.

use crate::entry::{chosen_meta, entry_from_meta, resolve_entry, wf_entry, LsError, LsFile, RawMeta};
use crate::order::{lemma_lex_lt_trans, lemma_lex_lt_trichotomy, lex_lt, str_lt};
use vstd::prelude::*;

verus! {

/// What the enumeration handed over for one child: the path's text for
/// failure reporting, the decoded final path component, and the outcomes
/// of the metadata lookups (the link-aware fallback only when one was
/// made).
#[derive(Debug)]
pub struct ChildRecord {
    /// The path as text, kept for failure reporting.
    pub path_text: String,
    /// The final path component, or the error decoding it.
    pub name: Result<String, LsError>,
    /// Outcome of the primary, link-following metadata lookup.
    pub primary: Result<RawMeta, LsError>,
    /// Outcome of the link-aware fallback lookup, when one was made.
    pub fallback: Option<Result<RawMeta, LsError>>,
}

/// One child that could not be resolved, and why.
#[derive(Debug)]
pub struct ChildFailure {
    /// The path as text.
    pub path_text: String,
    /// The error that ended the child's resolution.
    pub error: LsError,
}

/// An ordered, name-keyed scan outcome: the resolved entries in strictly
/// increasing name order, one per distinct name, beside the children
/// that failed, in input order.
#[derive(Debug)]
pub struct ScanResult {
    /// Resolved entries, sorted by name.
    pub entries: Vec<LsFile>,
    /// Children that failed to resolve.
    pub failures: Vec<ChildFailure>,
}

impl ScanResult {
    /// A scan that resolved some children and failed on others is a
    /// partial scan failure.
    pub fn is_partial_failure(&self) -> (r: bool)
        ensures
            r == (self.failures@.len() > 0),
    {
        self.failures.len() > 0
    }
}

/// The error that ends a child's resolution, if any: a name that could
/// not be decoded, else the chosen metadata lookup's failure.
pub open spec fn child_error(c: ChildRecord) -> Option<LsError> {
    match c.name {
        Err(err) => Some(err),
        Ok(_) => match chosen_meta(c.primary, c.fallback) {
            Err(err) => Some(err),
            Ok(_) => None,
        },
    }
}

/// Whether the child resolves to an entry.
pub open spec fn child_ok(c: ChildRecord) -> bool {
    child_error(c) is None
}

/// The child's decoded name (meaningful when decoding succeeded).
pub open spec fn child_name(c: ChildRecord) -> Seq<char> {
    match c.name {
        Ok(n) => n@,
        Err(_) => Seq::empty(),
    }
}

/// Whether `e` is the entry that resolving child `c` produces.
pub open spec fn child_yields(c: ChildRecord, e: LsFile, zone: Seq<char>) -> bool {
    &&& c.name is Ok
    &&& match chosen_meta(c.primary, c.fallback) {
        Ok(m) => entry_from_meta(e, child_name(c), m, zone),
        Err(_) => false,
    }
}

/// Whether `e` comes from resolving one of the given children.
pub open spec fn entry_resolved_from(e: LsFile, children: Seq<ChildRecord>, zone: Seq<char>) -> bool {
    exists|k: int| 0 <= k < children.len() && child_yields(#[trigger] children[k], e, zone)
}

/// The failures that resolving the children leaves, in input order.
pub open spec fn failures_of(children: Seq<ChildRecord>) -> Seq<ChildFailure>
    decreases children.len(),
{
    if children.len() == 0 {
        Seq::empty()
    } else {
        let rest = failures_of(children.drop_last());
        match child_error(children.last()) {
            Some(err) => rest.push(
                ChildFailure { path_text: children.last().path_text, error: err },
            ),
            None => rest,
        }
    }
}

/// Entries in strictly increasing name order; in particular, at most one
/// entry per distinct name.
pub open spec fn sorted_unique(s: Seq<LsFile>) -> bool {
    forall|i: int, j: int|
        #![trigger s[i], s[j]]
        0 <= i < j < s.len() ==> lex_lt(s[i].filename@, s[j].filename@)
}

/// Whether some entry carries the given name.
pub open spec fn has_name(s: Seq<LsFile>, name: Seq<char>) -> bool {
    exists|k: int| 0 <= k < s.len() && (#[trigger] s[k]).filename@ == name
}

/// Law: a name-sorted sequence of entries carries at most one entry per
/// distinct name — two different positions always hold different names.
pub proof fn lemma_sorted_unique_names(s: Seq<LsFile>)
    requires
        sorted_unique(s),
    ensures
        forall|i: int, j: int|
            #![trigger s[i], s[j]]
            0 <= i < j < s.len() ==> s[i].filename@ != s[j].filename@,
{
    assert forall|i: int, j: int|
        #![trigger s[i], s[j]]
        0 <= i < j < s.len() implies s[i].filename@ != s[j].filename@ by {
        lemma_lex_lt_trichotomy(s[i].filename@, s[j].filename@);
    }
}

/// Inserting keeps every name that was there, and brings the new one.
proof fn lemma_insert_has_name(s: Seq<LsFile>, p: int, e: LsFile, n: Seq<char>)
    requires
        0 <= p <= s.len(),
        has_name(s, n) || e.filename@ == n,
    ensures
        has_name(s.insert(p, e), n),
{
    s.insert_ensures(p, e);
    if e.filename@ == n {
        assert(s.insert(p, e)[p] == e);
    } else {
        let k = choose|k: int| 0 <= k < s.len() && (#[trigger] s[k]).filename@ == n;
        if k < p {
            assert(s.insert(p, e)[k] == s[k]);
        } else {
            assert(s.insert(p, e)[k + 1] == s[k]);
        }
    }
}

/// Every element of the widened sequence is the inserted one or one of
/// the old ones.
proof fn lemma_insert_elements(s: Seq<LsFile>, p: int, e: LsFile)
    requires
        0 <= p <= s.len(),
    ensures
        forall|t: int|
            0 <= t < s.insert(p, e).len() ==> (s.insert(p, e)[t] == e || exists|u: int|
                0 <= u < s.len() && s.insert(p, e)[t] == s[u]),
{
    s.insert_ensures(p, e);
    assert forall|t: int| 0 <= t < s.insert(p, e).len() implies (s.insert(p, e)[t] == e || exists|
        u: int,
    |
        0 <= u < s.len() && s.insert(p, e)[t] == s[u]) by {
        if t < p {
            assert(s.insert(p, e)[t] == s[t]);
        } else if t > p {
            assert(s.insert(p, e)[t] == s[t - 1]);
        }
    }
}

/// Places one entry into a name-sorted vector: a duplicate name leaves
/// the vector unchanged, and otherwise the entry goes in at the unique
/// position that keeps the names strictly increasing.
pub fn insert_entry(entries: &mut Vec<LsFile>, e: LsFile)
    requires
        sorted_unique(old(entries)@),
    ensures
        sorted_unique(final(entries)@),
        has_name(old(entries)@, e.filename@) ==> final(entries)@ == old(entries)@,
        !has_name(old(entries)@, e.filename@) ==> exists|p: int|
            0 <= p <= old(entries)@.len() && final(entries)@ == old(entries)@.insert(p, e),
        has_name(final(entries)@, e.filename@),
        forall|t: int|
            0 <= t < final(entries)@.len() ==> (final(entries)@[t] == e || exists|u: int|
                0 <= u < old(entries)@.len() && final(entries)@[t] == old(entries)@[u]),
{
    let ghost s0 = entries@;
    let mut idx: usize = 0;
    while idx < entries.len() && str_lt(entries[idx].filename.as_str(), e.filename.as_str())
        invariant
            idx <= entries@.len(),
            entries@ == s0,
            sorted_unique(s0),
            forall|k: int| 0 <= k < idx ==> lex_lt((#[trigger] s0[k]).filename@, e.filename@),
        decreases entries@.len() - idx,
    {
        idx += 1;
    }
    if idx < entries.len() && entries[idx].filename == e.filename {
        proof {
            assert(s0[idx as int].filename@ == e.filename@);
            assert(has_name(s0, e.filename@));
        }
        return;
    }
    proof {
        if idx < s0.len() {
            lemma_lex_lt_trichotomy(s0[idx as int].filename@, e.filename@);
            assert(lex_lt(e.filename@, s0[idx as int].filename@));
        }
        assert forall|k: int| idx <= k < s0.len() implies lex_lt(
            e.filename@,
            (#[trigger] s0[k]).filename@,
        ) by {
            if k > idx {
                lemma_lex_lt_trans(e.filename@, s0[idx as int].filename@, s0[k].filename@);
            }
        }
        assert forall|k: int| 0 <= k < s0.len() implies (#[trigger] s0[k]).filename@
            != e.filename@ by {
            lemma_lex_lt_trichotomy(s0[k].filename@, e.filename@);
        }
        assert(!has_name(s0, e.filename@));
    }
    entries.insert(idx, e);
    proof {
        s0.insert_ensures(idx as int, e);
        assert(entries@ == s0.insert(idx as int, e));
        assert forall|i: int, j: int|
            #![trigger entries@[i], entries@[j]]
            0 <= i < j < entries@.len() implies lex_lt(
            entries@[i].filename@,
            entries@[j].filename@,
        ) by {
            let p = idx as int;
            if i < p && j < p {
                assert(entries@[i] == s0[i]);
                assert(entries@[j] == s0[j]);
            } else if i < p && j == p {
                assert(entries@[i] == s0[i]);
            } else if i < p && j > p {
                assert(entries@[i] == s0[i]);
                assert(entries@[j] == s0[j - 1]);
            } else if i == p && j > p {
                assert(entries@[j] == s0[j - 1]);
            } else {
                assert(entries@[i] == s0[i - 1]);
                assert(entries@[j] == s0[j - 1]);
            }
        }
        lemma_insert_has_name(s0, idx as int, e, e.filename@);
        lemma_insert_elements(s0, idx as int, e);
    }
}

/// Resolves every child and assembles the scan result: the entries of
/// the children that resolved, sorted and deduplicated by name, and the
/// failures of those that did not, in input order.
pub fn build_scan_result(children: &Vec<ChildRecord>, zone: &str) -> (r: ScanResult)
    requires
        forall|k: int|
            0 <= k < children@.len() ==> ((#[trigger] children@[k]).name matches Ok(n) ==> n@.len()
                > 0),
    ensures
        sorted_unique(r.entries@),
        r.failures@ == failures_of(children@),
        forall|t: int|
            0 <= t < r.entries@.len() ==> wf_entry(#[trigger] r.entries@[t]) && entry_resolved_from(
                r.entries@[t],
                children@,
                zone@,
            ),
        forall|k: int|
            0 <= k < children@.len() && child_ok(#[trigger] children@[k]) ==> has_name(
                r.entries@,
                child_name(children@[k]),
            ),
{
    let mut entries: Vec<LsFile> = Vec::new();
    let mut failures: Vec<ChildFailure> = Vec::new();
    let mut i: usize = 0;
    while i < children.len()
        invariant
            i <= children@.len(),
            forall|k: int|
                0 <= k < children@.len() ==> ((#[trigger] children@[k]).name matches Ok(n)
                    ==> n@.len() > 0),
            sorted_unique(entries@),
            failures@ == failures_of(children@.take(i as int)),
            forall|t: int|
                0 <= t < entries@.len() ==> wf_entry(#[trigger] entries@[t])
                    && entry_resolved_from(entries@[t], children@, zone@),
            forall|k: int|
                0 <= k < i && child_ok(#[trigger] children@[k]) ==> has_name(
                    entries@,
                    child_name(children@[k]),
                ),
        decreases children@.len() - i,
    {
        let c = &children[i];
        let ghost pre_entries = entries@;
        let ghost pre_failures = failures@;
        match &c.name {
            Ok(name) => {
                match resolve_entry(name.clone(), c.primary, c.fallback, zone) {
                    Ok(e) => {
                        proof {
                            assert(child_yields(children@[i as int], e, zone@));
                        }
                        insert_entry(&mut entries, e);
                        proof {
                            assert forall|t: int| 0 <= t < entries@.len() implies wf_entry(
                                #[trigger] entries@[t],
                            ) && entry_resolved_from(entries@[t], children@, zone@) by {
                                if entries@[t] != e {
                                    let u = choose|u: int|
                                        0 <= u < pre_entries.len() && entries@[t]
                                            == pre_entries[u];
                                }
                            }
                            assert forall|k: int| 0 <= k < i + 1 && child_ok(
                                #[trigger] children@[k],
                            ) implies has_name(entries@, child_name(children@[k])) by {
                                if k < i {
                                    let w = choose|w: int|
                                        0 <= w < pre_entries.len() && (#[trigger] pre_entries[w]).filename@
                                            == child_name(children@[k]);
                                    if has_name(pre_entries, e.filename@) {
                                        assert(entries@ == pre_entries);
                                    } else {
                                        let p = choose|p: int|
                                            0 <= p <= pre_entries.len() && entries@
                                                == pre_entries.insert(p, e);
                                        lemma_insert_has_name(
                                            pre_entries,
                                            p,
                                            e,
                                            child_name(children@[k]),
                                        );
                                    }
                                }
                            }
                        }
                    },
                    Err(err) => {
                        failures.push(ChildFailure { path_text: c.path_text.clone(), error: err });
                        proof {
                            assert(child_error(children@[i as int]) matches Some(x) && x == err);
                        }
                    },
                }
            },
            Err(err) => {
                let err_val = *err;
                failures.push(ChildFailure { path_text: c.path_text.clone(), error: err_val });
                proof {
                    assert(child_error(children@[i as int]) matches Some(x) && x == err_val);
                }
            },
        }
        proof {
            assert(children@.take(i + 1).drop_last() =~= children@.take(i as int));
            assert(children@.take(i + 1).last() == children@[i as int]);
            match child_error(children@[i as int]) {
                Some(err) => {
                    assert(failures@ =~= pre_failures.push(
                        ChildFailure { path_text: children@[i as int].path_text, error: err },
                    ));
                },
                None => {
                    assert(failures@ == pre_failures);
                },
            }
        }
        i += 1;
    }
    proof {
        assert(children@.take(children@.len() as int) =~= children@);
    }
    ScanResult { entries, failures }
}

} // verus!
