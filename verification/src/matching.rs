//! Which applications a typed query selects.
//!
//! Each installed application is summarised as an [`AppEntry`]: a stable
//! identifier, whether the desktop entry wants to be shown at all, and
//! the texts the query is matched against — display name, description
//! and keywords, as UTF-8 bytes.  A query selects an entry when the
//! entry is shown and the query occurs, ignoring ASCII case, in one of
//! those texts.  [`apply_search`] combines that predicate with the
//! incremental reconciliation of the filtered identifier list.

use vstd::prelude::*;

use crate::reconcile::{
    apply_ops, distinct_ids, filter_keep, filter_model, is_subseq, lemma_filter_keep_subseq,
    ops_valid, EditOp,
};
use crate::text::{matches_ignore_case, query_matches};

verus! {

/// What the launcher knows of one installed application.
pub struct AppEntry {
    /// Position of the application in the full source list; ties the
    /// entry to the widget made for it.
    pub id: u64,
    /// Whether the desktop entry asks to be listed at all.
    pub show: bool,
    /// Display name, if the desktop entry has one.
    pub name: Option<Vec<u8>>,
    /// Free-text description, if any.
    pub description: Option<Vec<u8>>,
    /// Keywords of the desktop entry.
    pub keywords: Vec<Vec<u8>>,
}

/// The query occurs in the given optional text.
pub open spec fn opt_matches(text: Option<Vec<u8>>, query: Seq<u8>) -> bool {
    match text {
        Some(t) => query_matches(t@, query),
        None => false,
    }
}

/// The query selects the entry: the entry is shown, and the query
/// occurs in its name, its description or one of its keywords.
pub open spec fn entry_matches_spec(e: AppEntry, query: Seq<u8>) -> bool {
    e.show && (opt_matches(e.name, query) || opt_matches(e.description, query) || exists|k: int|
        0 <= k < e.keywords@.len() && query_matches(e.keywords@[k]@, query))
}

/// Decide whether the query selects the entry.
pub fn entry_matches(e: &AppEntry, query: &Vec<u8>) -> (r: bool)
    ensures
        r == entry_matches_spec(*e, query@),
{
    if !e.show {
        return false;
    }
    match &e.name {
        Some(name) => {
            if matches_ignore_case(name, query) {
                return true;
            }
        },
        None => {},
    }
    match &e.description {
        Some(desc) => {
            if matches_ignore_case(desc, query) {
                return true;
            }
        },
        None => {},
    }
    let mut k: usize = 0;
    while k < e.keywords.len()
        invariant
            e.show,
            k <= e.keywords@.len(),
            forall|t: int| 0 <= t < k ==> !query_matches(e.keywords@[t]@, query@),
        decreases e.keywords@.len() - k,
    {
        if matches_ignore_case(&e.keywords[k], query) {
            proof {
                assert(0 <= k < e.keywords@.len() && query_matches(e.keywords@[k as int]@,
                query@));
            }
            return true;
        }
        k = k + 1;
    }
    false
}

/// The identifiers of the entries, in source order.
pub open spec fn ids_of(entries: Seq<AppEntry>) -> Seq<u64> {
    entries.map_values(|e: AppEntry| e.id)
}

/// For each entry, whether the query selects it.
pub open spec fn keep_flags(entries: Seq<AppEntry>, query: Seq<u8>) -> Seq<bool> {
    entries.map_values(|e: AppEntry| entry_matches_spec(e, query))
}

/// The identifiers of the entries the query selects, in source order.
pub open spec fn matching_ids(entries: Seq<AppEntry>, query: Seq<u8>) -> Seq<u64> {
    filter_keep(ids_of(entries), keep_flags(entries, query))
}

/// Narrow or widen the filtered identifier list to the entries the
/// query selects, editing it in place.
///
/// `filtered` must list a subsequence of the entries' identifiers —
/// true of an empty list and preserved by every call, whatever the
/// query.  The returned edits, applied in order to the old list, give
/// the new one; a caller keeping a widget list in step replays exactly
/// those edits.  At most one edit is made per entry, and none at all
/// when the list already shows what the query selects (the entries'
/// identifiers being distinct).
pub fn apply_search(entries: &Vec<AppEntry>, query: &Vec<u8>, filtered: &mut Vec<u64>) -> (ops:
    Vec<EditOp>)
    requires
        is_subseq(old(filtered)@, ids_of(entries@)),
    ensures
        final(filtered)@ == matching_ids(entries@, query@),
        is_subseq(final(filtered)@, ids_of(entries@)),
        ops_valid(old(filtered)@, ops@),
        apply_ops(old(filtered)@, ops@) == final(filtered)@,
        ops@.len() <= entries@.len(),
        distinct_ids(ids_of(entries@)) && old(filtered)@ == matching_ids(entries@, query@)
            ==> ops@.len() == 0,
{
    let mut base_ids: Vec<u64> = Vec::new();
    let mut keep: Vec<bool> = Vec::new();
    let mut i: usize = 0;
    proof {
        assert(entries@.take(0) =~= Seq::<AppEntry>::empty());
        assert(base_ids@ =~= ids_of(entries@.take(0)));
        assert(keep@ =~= keep_flags(entries@.take(0), query@));
    }
    while i < entries.len()
        invariant
            i <= entries@.len(),
            base_ids@ == ids_of(entries@.take(i as int)),
            keep@ == keep_flags(entries@.take(i as int), query@),
        decreases entries@.len() - i,
    {
        let e = &entries[i];
        base_ids.push(e.id);
        let m = entry_matches(e, query);
        keep.push(m);
        i = i + 1;
        proof {
            assert(base_ids@ =~= ids_of(entries@.take(i as int)));
            assert(keep@ =~= keep_flags(entries@.take(i as int), query@));
        }
    }
    proof {
        assert(entries@.take(entries@.len() as int) =~= entries@);
    }
    let ops = filter_model(&base_ids, &keep, filtered);
    proof {
        lemma_filter_keep_subseq(ids_of(entries@), keep_flags(entries@, query@));
    }
    ops
}

} // verus!
