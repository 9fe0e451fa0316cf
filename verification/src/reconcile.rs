//! Incremental reconciliation of a filtered list against its source list.
//!
//! The launcher keeps the widgets of the result grid bound to a filtered
//! list.  When the query changes, the filtered list is not rebuilt: it is
//! walked in step with the source list, and entries are inserted or
//! removed one at a time, so that entries that still match keep their
//! position and any state tied to them (such as the selection).
//!
//! [`filter_model`] performs that walk on identifiers.  It both updates
//! the filtered list in place and reports the edits it made, so that a
//! caller can replay exactly those edits on a widget list it keeps in
//! step with this one.

use vstd::prelude::*;

verus! {

/// `s` is a subsequence of `t`: the elements of `s` occur in `t`, in
/// order (not necessarily contiguously).
pub open spec fn is_subseq(s: Seq<u64>, t: Seq<u64>) -> bool
    decreases s.len() + t.len(),
{
    if s.len() == 0 {
        true
    } else if t.len() == 0 {
        false
    } else if s[0] == t[0] {
        is_subseq(s.skip(1), t.skip(1))
    } else {
        is_subseq(s, t.skip(1))
    }
}

/// The elements of `ids` whose flag in `keep` is set, in order.
pub open spec fn filter_keep(ids: Seq<u64>, keep: Seq<bool>) -> Seq<u64>
    recommends
        keep.len() == ids.len(),
    decreases ids.len(),
{
    if ids.len() == 0 {
        Seq::empty()
    } else if keep[0] {
        seq![ids[0]] + filter_keep(ids.skip(1), keep.skip(1))
    } else {
        filter_keep(ids.skip(1), keep.skip(1))
    }
}

/// One edit to the filtered list.  Indices refer to the list as it
/// stands when the edit is applied, edits being applied in order.
#[derive(Clone, Copy, Debug, PartialEq, Eq, Structural)]
pub enum EditOp {
    Insert { index: usize, id: u64 },
    Remove { index: usize },
}

/// The edit's index is in bounds for a list of shape `s`.
pub open spec fn op_valid(s: Seq<u64>, op: EditOp) -> bool {
    match op {
        EditOp::Insert { index, id } => index <= s.len(),
        EditOp::Remove { index } => index < s.len(),
    }
}

/// The list `s` after one edit.
pub open spec fn apply_op(s: Seq<u64>, op: EditOp) -> Seq<u64> {
    match op {
        EditOp::Insert { index, id } => s.insert(index as int, id),
        EditOp::Remove { index } => s.remove(index as int),
    }
}

/// Every edit is in bounds when its turn comes.
pub open spec fn ops_valid(s: Seq<u64>, ops: Seq<EditOp>) -> bool
    decreases ops.len(),
{
    ops.len() == 0 || (op_valid(s, ops[0]) && ops_valid(apply_op(s, ops[0]), ops.skip(1)))
}

/// The list `s` after all the edits, applied in order.
pub open spec fn apply_ops(s: Seq<u64>, ops: Seq<EditOp>) -> Seq<u64>
    decreases ops.len(),
{
    if ops.len() == 0 {
        s
    } else {
        apply_ops(apply_op(s, ops[0]), ops.skip(1))
    }
}

/// Appending one edit to a plan applies it after the others.
proof fn lemma_apply_ops_push(s: Seq<u64>, ops: Seq<EditOp>, op: EditOp)
    ensures
        apply_ops(s, ops.push(op)) == apply_op(apply_ops(s, ops), op),
        ops_valid(s, ops) && op_valid(apply_ops(s, ops), op) ==> ops_valid(s, ops.push(op)),
    decreases ops.len(),
{
    let ops2 = ops.push(op);
    if ops.len() == 0 {
        assert(ops2[0] == op);
        assert(ops2.skip(1) =~= ops);
        assert(apply_ops(s, ops2) == apply_ops(apply_op(s, op), ops));
        assert(apply_ops(apply_op(s, op), ops) == apply_op(s, op));
        assert(apply_ops(s, ops) == s);
        assert(ops_valid(apply_op(s, op), ops));
    } else {
        assert(ops2[0] == ops[0]);
        assert(ops2.skip(1) =~= ops.skip(1).push(op));
        lemma_apply_ops_push(apply_op(s, ops[0]), ops.skip(1), op);
        assert(apply_ops(s, ops2) == apply_ops(apply_op(s, ops[0]), ops.skip(1).push(op)));
        assert(apply_ops(s, ops) == apply_ops(apply_op(s, ops[0]), ops.skip(1)));
    }
}

/// A subsequence stays one when its first element is dropped.
proof fn lemma_subseq_drop_head(s: Seq<u64>, t: Seq<u64>)
    requires
        is_subseq(s, t),
        s.len() > 0,
    ensures
        is_subseq(s.skip(1), t),
    decreases t.len(), 1int,
{
    if s[0] == t[0] {
        lemma_subseq_extend_target(s.skip(1), t);
    } else {
        lemma_subseq_drop_head(s, t.skip(1));
        lemma_subseq_extend_target(s.skip(1), t);
    }
}

/// A subsequence of `t` without its first element is one of `t`.
proof fn lemma_subseq_extend_target(s: Seq<u64>, t: Seq<u64>)
    requires
        t.len() > 0,
        is_subseq(s, t.skip(1)),
    ensures
        is_subseq(s, t),
    decreases t.len(), 0int,
{
    if s.len() == 0 {
    } else if s[0] == t[0] {
        lemma_subseq_drop_head(s, t.skip(1));
    } else {
    }
}

/// What `filter_keep` selects from a list is a subsequence of it.
///
/// This is what lets the reconciliation run again on its own output:
/// the filtered list it leaves behind satisfies the precondition of
/// the next run, whatever the next query is.
pub proof fn lemma_filter_keep_subseq(ids: Seq<u64>, keep: Seq<bool>)
    requires
        keep.len() == ids.len(),
    ensures
        is_subseq(filter_keep(ids, keep), ids),
    decreases ids.len(),
{
    if ids.len() == 0 {
    } else {
        lemma_filter_keep_subseq(ids.skip(1), keep.skip(1));
        let rest = filter_keep(ids.skip(1), keep.skip(1));
        if keep[0] {
            let whole = seq![ids[0]] + rest;
            assert(whole[0] == ids[0]);
            assert(whole.skip(1) =~= rest);
        } else {
            lemma_subseq_extend_target(rest, ids);
        }
    }
}

/// Appending one element to the source appends to the filtered view
/// exactly when its flag is set.
proof fn lemma_filter_keep_push(ids: Seq<u64>, keep: Seq<bool>, x: u64, b: bool)
    requires
        keep.len() == ids.len(),
    ensures
        filter_keep(ids.push(x), keep.push(b)) == if b {
            filter_keep(ids, keep).push(x)
        } else {
            filter_keep(ids, keep)
        },
    decreases ids.len(),
{
    let ids2 = ids.push(x);
    let keep2 = keep.push(b);
    if ids.len() == 0 {
        assert(ids2[0] == x);
        assert(keep2[0] == b);
        assert(ids2.skip(1) =~= Seq::<u64>::empty());
        assert(keep2.skip(1) =~= Seq::<bool>::empty());
        assert(filter_keep(ids2.skip(1), keep2.skip(1)) == Seq::<u64>::empty());
        assert(filter_keep(ids, keep) == Seq::<u64>::empty());
        if b {
            assert(filter_keep(ids2, keep2) == seq![x] + Seq::<u64>::empty());
            assert(seq![x] + Seq::<u64>::empty() =~= Seq::<u64>::empty().push(x));
        }
    } else {
        assert(ids2[0] == ids[0]);
        assert(keep2[0] == keep[0]);
        assert(ids2.skip(1) =~= ids.skip(1).push(x));
        assert(keep2.skip(1) =~= keep.skip(1).push(b));
        lemma_filter_keep_push(ids.skip(1), keep.skip(1), x, b);
        let rest = filter_keep(ids.skip(1), keep.skip(1));
        if keep[0] {
            assert(filter_keep(ids, keep) == seq![ids[0]] + rest);
            if b {
                assert(filter_keep(ids2, keep2) == seq![ids[0]] + rest.push(x));
                assert(seq![ids[0]] + rest.push(x) =~= (seq![ids[0]] + rest).push(x));
            } else {
                assert(filter_keep(ids2, keep2) == seq![ids[0]] + rest);
            }
        } else {
            assert(filter_keep(ids, keep) == rest);
            if b {
                assert(filter_keep(ids2, keep2) == rest.push(x));
            } else {
                assert(filter_keep(ids2, keep2) == rest);
            }
        }
    }
}

/// No two elements of `s` are equal — true of the identifier list the
/// launcher builds, which numbers the applications in order.
pub open spec fn distinct_ids(s: Seq<u64>) -> bool {
    forall|p: int, q: int| 0 <= p < q < s.len() ==> s[p] != s[q]
}

/// The filtered view of a prefix of the source is a prefix of the
/// filtered view of the whole source.
proof fn lemma_filter_keep_take_prefix(ids: Seq<u64>, keep: Seq<bool>, i: int)
    requires
        keep.len() == ids.len(),
        0 <= i <= ids.len(),
    ensures
        filter_keep(ids.take(i), keep.take(i)).len() <= filter_keep(ids, keep).len(),
        filter_keep(ids, keep).take(filter_keep(ids.take(i), keep.take(i)).len() as int)
            == filter_keep(ids.take(i), keep.take(i)),
    decreases ids.len() - i,
{
    if i == ids.len() {
        assert(ids.take(i) =~= ids);
        assert(keep.take(i) =~= keep);
        assert(filter_keep(ids, keep).take(filter_keep(ids, keep).len() as int) =~= filter_keep(
            ids,
            keep,
        ));
    } else {
        lemma_filter_keep_take_prefix(ids, keep, i + 1);
        assert(ids.take(i + 1) =~= ids.take(i).push(ids[i]));
        assert(keep.take(i + 1) =~= keep.take(i).push(keep[i]));
        lemma_filter_keep_push(ids.take(i), keep.take(i), ids[i], keep[i]);
        let fi = filter_keep(ids.take(i), keep.take(i));
        let fnext = filter_keep(ids.take(i + 1), keep.take(i + 1));
        let whole = filter_keep(ids, keep);
        // fi is a prefix of fnext, and fnext of the whole view
        assert(whole.take(fi.len() as int) =~= fnext.take(fi.len() as int));
        if keep[i] {
            assert(fnext.take(fi.len() as int) =~= fi);
        }
    }
}

/// An element kept nowhere in the source does not appear in the
/// filtered view.
proof fn lemma_filter_keep_absent(ids: Seq<u64>, keep: Seq<bool>, x: u64)
    requires
        keep.len() == ids.len(),
        forall|p: int| 0 <= p < ids.len() && ids[p] == x ==> !keep[p],
    ensures
        !filter_keep(ids, keep).contains(x),
    decreases ids.len(),
{
    if ids.len() == 0 {
    } else {
        let ids1 = ids.skip(1);
        let keep1 = keep.skip(1);
        assert(forall|p: int| 0 <= p < ids1.len() ==> ids1[p] == ids[p + 1] && keep1[p] == keep[p
            + 1]);
        assert(forall|p: int| 0 <= p < ids1.len() && ids1[p] == x ==> !keep1[p]);
        lemma_filter_keep_absent(ids.skip(1), keep.skip(1), x);
        let rest = filter_keep(ids.skip(1), keep.skip(1));
        if keep[0] {
            assert(ids[0] != x);
            let whole = seq![ids[0]] + rest;
            assert forall|t: int| 0 <= t < whole.len() implies whole[t] != x by {
                if t == 0 {
                } else {
                    assert(whole[t] == rest[t - 1]);
                    assert(!rest.contains(x));
                }
            }
        }
    }
}

/// Reconcile `filtered` against `base`, keeping the elements whose flag
/// in `keep` is set.
///
/// `filtered` must list a subsequence of `base` — which holds of an
/// empty list, and again of every list this function leaves behind.
/// On return it holds exactly the kept elements of `base`, in source
/// order, and the returned edits, applied in order to the old list,
/// produce the new one.  An element that was present and still matches
/// is never removed and re-inserted, so a caller replaying the edits on
/// a parallel widget list disturbs only the entries that changed: at
/// most one edit is made per source element, and when the elements are
/// distinct and the filtered list is already the filtered view, no
/// edit is made at all.
pub fn filter_model(base: &Vec<u64>, keep: &Vec<bool>, filtered: &mut Vec<u64>) -> (ops: Vec<
    EditOp,
>)
    requires
        keep@.len() == base@.len(),
        is_subseq(old(filtered)@, base@),
    ensures
        final(filtered)@ == filter_keep(base@, keep@),
        ops_valid(old(filtered)@, ops@),
        apply_ops(old(filtered)@, ops@) == final(filtered)@,
        ops@.len() <= base@.len(),
        distinct_ids(base@) && old(filtered)@ == filter_keep(base@, keep@) ==> ops@.len() == 0,
{
    let ghost orig: Seq<u64> = filtered@;
    let ghost steady = distinct_ids(base@) && orig == filter_keep(base@, keep@);
    let mut ops: Vec<EditOp> = Vec::new();
    let mut i: usize = 0;
    let mut j: usize = 0;
    proof {
        assert(filtered@.take(0) =~= Seq::<u64>::empty());
        assert(base@.take(0) =~= Seq::<u64>::empty());
        assert(keep@.take(0) =~= Seq::<bool>::empty());
        assert(filtered@.skip(0) =~= filtered@);
        assert(base@.skip(0) =~= base@);
    }
    while i < base.len()
        invariant
            keep@.len() == base@.len(),
            i <= base@.len(),
            j <= filtered@.len(),
            filtered@.take(j as int) == filter_keep(base@.take(i as int), keep@.take(i as int)),
            is_subseq(filtered@.skip(j as int), base@.skip(i as int)),
            ops_valid(orig, ops@),
            apply_ops(orig, ops@) == filtered@,
            ops@.len() <= i,
            steady == (distinct_ids(base@) && orig == filter_keep(base@, keep@)),
            steady ==> ops@.len() == 0 && filtered@ == orig,
        decreases base@.len() - i,
    {
        let ghost prev = filtered@;
        let ghost prev_ops = ops@;
        let b = base[i];
        proof {
            assert(base@.take(i + 1) =~= base@.take(i as int).push(base@[i as int]));
            assert(keep@.take(i + 1) =~= keep@.take(i as int).push(keep@[i as int]));
            lemma_filter_keep_push(base@.take(i as int), keep@.take(i as int), base@[i as int],
                keep@[i as int]);
            if steady {
                let fi = filter_keep(base@.take(i as int), keep@.take(i as int));
                let whole = filter_keep(base@, keep@);
                assert(fi.len() == j);
                if keep@[i as int] {
                    // the whole filtered view continues the prefix with base[i],
                    // so the current list already holds it at position j
                    lemma_filter_keep_take_prefix(base@, keep@, i + 1);
                    let fnext = filter_keep(base@.take(i + 1), keep@.take(i + 1));
                    assert(fnext == fi.push(base@[i as int]));
                    assert(whole.take(fnext.len() as int) == fnext);
                    assert(whole[j as int] == fnext[j as int]);
                    assert(filtered@[j as int] == base@[i as int]);
                } else {
                    // a dropped element appears nowhere in the filtered view,
                    // so the current list cannot hold it at position j
                    assert forall|p: int|
                        0 <= p < base@.len() && base@[p] == base@[i as int] implies !keep@[p] by {
                        if p != i {
                            assert(base@[p] != base@[i as int]);
                        }
                    }
                    lemma_filter_keep_absent(base@, keep@, base@[i as int]);
                    if j < filtered@.len() {
                        assert(whole.contains(whole[j as int]));
                    }
                }
            }
        }
        if keep[i] {
            let mut have_match = false;
            if j < filtered.len() {
                if filtered[j] == b {
                    have_match = true;
                }
            }
            if have_match {
                proof {
                    assert(filtered@.take(j + 1) =~= filtered@.take(j as int).push(
                    filtered@[j as int]));
                    // the heads of suffix and source agree, so both shrink together
                    assert(filtered@.skip(j as int)[0] == base@.skip(i as int)[0]);
                    assert(filtered@.skip(j as int).skip(1) =~= filtered@.skip(j + 1));
                    assert(base@.skip(i as int).skip(1) =~= base@.skip(i + 1));
                }
            } else {
                filtered.insert(j, b);
                ops.push(EditOp::Insert { index: j, id: b });
                proof {
                    lemma_apply_ops_push(orig, prev_ops, EditOp::Insert { index: j, id: b });
                    assert(filtered@ == prev.insert(j as int, b));
                    assert(filtered@.take(j + 1) =~= prev.take(j as int).push(b));
                    assert(filtered@.skip(j + 1) =~= prev.skip(j as int));
                    // the old suffix does not start with base[i], so it is
                    // already a subsequence of the source past i
                    if prev.skip(j as int).len() > 0 {
                        assert(prev.skip(j as int)[0] != base@.skip(i as int)[0]);
                    }
                    assert(base@.skip(i as int).skip(1) =~= base@.skip(i + 1));
                }
            }
            let flen = filtered.len();
            proof {
                assert(j < flen);
            }
            j = j + 1;
        } else {
            let mut have_match = false;
            if j < filtered.len() {
                if filtered[j] == b {
                    have_match = true;
                }
            }
            if have_match {
                filtered.remove(j);
                ops.push(EditOp::Remove { index: j });
                proof {
                    lemma_apply_ops_push(orig, prev_ops, EditOp::Remove { index: j });
                    assert(filtered@ == prev.remove(j as int));
                    assert(filtered@.take(j as int) =~= prev.take(j as int));
                    assert(filtered@.skip(j as int) =~= prev.skip(j + 1));
                    assert(prev.skip(j as int)[0] == base@.skip(i as int)[0]);
                    assert(prev.skip(j as int).skip(1) =~= prev.skip(j + 1));
                    assert(base@.skip(i as int).skip(1) =~= base@.skip(i + 1));
                }
            } else {
                proof {
                    if filtered@.skip(j as int).len() > 0 {
                        assert(filtered@.skip(j as int)[0] != base@.skip(i as int)[0]);
                    }
                    assert(base@.skip(i as int).skip(1) =~= base@.skip(i + 1));
                }
            }
        }
        i = i + 1;
    }
    proof {
        assert(base@.skip(base@.len() as int) =~= Seq::<u64>::empty());
        assert(filtered@.skip(j as int).len() == 0);
        assert(filtered@.take(j as int) =~= filtered@);
        assert(base@.take(base@.len() as int) =~= base@);
        assert(keep@.take(base@.len() as int) =~= keep@);
    }
    ops
}

} // verus!
