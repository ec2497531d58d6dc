use vstd::prelude::*;

use crate::rules::{assigned_position, listed_before, max_position, reordered, sorted_by_position};
use crate::store::StoreModel;
use crate::todo::TodoRecord;

verus! {

/// The store after creating a todo for each title in turn, with the todos
/// created, in call order.
pub open spec fn create_all(s: StoreModel, titles: Seq<Seq<char>>) -> (StoreModel, Seq<TodoRecord>)
    decreases titles.len(),
{
    if titles.len() == 0 {
        (s, Seq::empty())
    } else {
        let (mid, made) = create_all(s, titles.drop_last());
        let (after, t) = mid.created(titles.last());
        (after, made.push(t))
    }
}

proof fn lemma_max_position_bounds(rows: Seq<TodoRecord>, i: int)
    requires
        0 <= i < rows.len(),
    ensures
        max_position(rows) matches Some(m) && rows[i].position <= m,
    decreases rows.len(),
{
    if i < rows.len() - 1 {
        lemma_max_position_bounds(rows.drop_last(), i);
    } else if rows.len() > 1 {
        lemma_max_position_bounds(rows.drop_last(), 0);
    }
}

proof fn lemma_create_all_grows(s: StoreModel, titles: Seq<Seq<char>>)
    requires
        s.wf(),
    ensures
        create_all(s, titles).0.wf(),
        create_all(s, titles).1.len() == titles.len(),
        create_all(s, titles).0.next_id == s.next_id + titles.len(),
        forall|k: int|
            0 <= k < titles.len() ==> create_all(s, titles).0.rows.contains(
                #[trigger] create_all(s, titles).1[k],
            ),
        forall|k: int|
            0 <= k < titles.len() ==> (#[trigger] create_all(s, titles).1[k]).id == s.next_id + k,
    decreases titles.len(),
{
    if titles.len() > 0 {
        let (mid, made) = create_all(s, titles.drop_last());
        lemma_create_all_grows(s, titles.drop_last());
        let (after, t) = mid.created(titles.last());
        assert forall|k: int| 0 <= k < titles.len() implies after.rows.contains(
            #[trigger] made.push(t)[k],
        ) by {
            if k < titles.len() - 1 {
                let j = choose|j: int| 0 <= j < mid.rows.len() && mid.rows[j] == made[k];
                assert(after.rows[j] == made[k]);
            } else {
                assert(after.rows[mid.rows.len() as int] == t);
            }
        };
    }
}

/// Todos created one after another get pairwise distinct ids, and each gets a
/// larger position than every todo created before it.
pub proof fn lemma_creates_distinct_increasing(s: StoreModel, titles: Seq<Seq<char>>)
    requires
        s.wf(),
    ensures
        forall|i: int, j: int|
            0 <= i < j < titles.len() ==> {
                &&& (#[trigger] create_all(s, titles).1[i]).id != (#[trigger] create_all(
                    s,
                    titles,
                ).1[j]).id
                &&& create_all(s, titles).1[i].position < create_all(s, titles).1[j].position
            },
    decreases titles.len(),
{
    lemma_create_all_grows(s, titles);
    if titles.len() > 0 {
        let (mid, made) = create_all(s, titles.drop_last());
        lemma_creates_distinct_increasing(s, titles.drop_last());
        lemma_create_all_grows(s, titles.drop_last());
        let (after, t) = mid.created(titles.last());
        let all = made.push(t);
        assert forall|i: int, j: int| 0 <= i < j < titles.len() implies {
            &&& (#[trigger] all[i]).id != (#[trigger] all[j]).id
            &&& all[i].position < all[j].position
        } by {
            if j == titles.len() - 1 {
                let k = choose|k: int| 0 <= k < mid.rows.len() && mid.rows[k] == made[i];
                lemma_max_position_bounds(mid.rows, k);
            }
        };
    }
}

/// An update that gives no field changes nothing and returns the stored todo.
pub proof fn lemma_update_without_fields(s: StoreModel, id: int)
    requires
        s.wf(),
    ensures
        s.updated(id, None, None) == (s, s.lookup(id)),
{
    if let Some(i) = s.index_of(id) {
        assert(s.rows.update(i, s.rows[i]) =~= s.rows);
    }
}

/// Updating or deleting an id that names no todo changes nothing; the update
/// returns `None` and the delete `false`.
pub proof fn lemma_missing_id(s: StoreModel, id: int, title: Option<Seq<char>>, completed: Option<bool>)
    requires
        !s.has(id),
    ensures
        s.updated(id, title, completed) == (s, None::<TodoRecord>),
        s.deleted(id) == (s, false),
        s.lookup(id) is None,
{
}

/// Reordering by an empty sequence leaves every todo as it was.
pub proof fn lemma_reorder_empty(s: StoreModel)
    ensures
        s.reordered_by(Seq::empty()) == s,
{
    assert(s.reordered_by(Seq::empty()).rows =~= s.rows);
}

proof fn lemma_assigned_distinct(ids: Seq<i64>, k: int, current: int)
    requires
        ids.no_duplicates(),
        0 <= k < ids.len(),
    ensures
        assigned_position(ids, ids[k] as int, current) == k,
    decreases ids.len(),
{
    if k < ids.len() - 1 {
        assert(ids.drop_last()[k] == ids[k]);
        lemma_assigned_distinct(ids.drop_last(), k, current);
    }
}

/// After reordering by distinct ids that all name stored todos, the todo named
/// at index `k` has position `k`, and a listing shows the named todos in the
/// order given.
pub proof fn lemma_reorder_sets_order(s: StoreModel, ids: Seq<i64>, out: Seq<TodoRecord>)
    requires
        s.wf(),
        ids.no_duplicates(),
        forall|k: int| 0 <= k < ids.len() ==> s.has(#[trigger] ids[k] as int),
        s.reordered_by(ids).is_listing(out),
    ensures
        forall|k: int|
            0 <= k < ids.len() ==> (s.reordered_by(ids).lookup(#[trigger] ids[k] as int) matches Some(
                t,
            ) && t.position == k),
        forall|k: int, l: int, a: int, b: int|
            0 <= k < l < ids.len() && 0 <= a < out.len() && 0 <= b < out.len() && (#[trigger] out[a]).id
                == (#[trigger] ids[k]) as int && (#[trigger] out[b]).id == (#[trigger] ids[l]) as int
                ==> a < b,
{
    let r = s.reordered_by(ids);
    assert forall|k: int| 0 <= k < ids.len() implies (r.lookup(#[trigger] ids[k] as int) matches Some(
        t,
    ) && t.position == k) by {
        let i = choose|i: int| 0 <= i < s.rows.len() && #[trigger] s.rows[i].id == ids[k] as int;
        assert(r.rows[i].id == ids[k] as int);
        assert(r.has(ids[k] as int));
        lemma_assigned_distinct(ids, k, s.rows[i].position);
        let c = r.index_of(ids[k] as int)->Some_0;
        assert(c == i) by {
            if c < i {
                assert(s.rows[c].id < s.rows[i].id);
            } else if c > i {
                assert(s.rows[i].id < s.rows[c].id);
            }
        };
    };
    assert forall|k: int, l: int, a: int, b: int|
        0 <= k < l < ids.len() && 0 <= a < out.len() && 0 <= b < out.len() && (#[trigger] out[a]).id
            == (#[trigger] ids[k]) as int && (#[trigger] out[b]).id == (#[trigger] ids[l]) as int
        implies a < b by {
        assert(out.contains(out[a]));
        assert(out.contains(out[b]));
        vstd::seq_lib::to_multiset_contains(out, out[a]);
        vstd::seq_lib::to_multiset_contains(out, out[b]);
        vstd::seq_lib::to_multiset_contains(r.rows, out[a]);
        vstd::seq_lib::to_multiset_contains(r.rows, out[b]);
        let i = choose|i: int| 0 <= i < r.rows.len() && r.rows[i] == out[a];
        let j = choose|j: int| 0 <= j < r.rows.len() && r.rows[j] == out[b];
        lemma_assigned_distinct(ids, k, s.rows[i].position);
        lemma_assigned_distinct(ids, l, s.rows[j].position);
        if a >= b {
            assert(ids[k] != ids[l]);
            assert(a != b);
            assert(listed_before(out[b], out[a]));
        }
    };
}

/// One call that changes a store.
pub ghost enum StoreOp {
    Create(Seq<char>),
    Update(int, Option<Seq<char>>, Option<bool>),
    Delete(int),
    Reorder(Seq<i64>),
}

/// The store after one call.
pub open spec fn apply(s: StoreModel, op: StoreOp) -> StoreModel {
    match op {
        StoreOp::Create(title) => s.created(title).0,
        StoreOp::Update(id, title, completed) => s.updated(id, title, completed).0,
        StoreOp::Delete(id) => s.deleted(id).0,
        StoreOp::Reorder(ids) => s.reordered_by(ids),
    }
}

/// The store after the calls `ops`, in order.
pub open spec fn apply_all(s: StoreModel, ops: Seq<StoreOp>) -> StoreModel
    decreases ops.len(),
{
    if ops.len() == 0 {
        s
    } else {
        apply(apply_all(s, ops.drop_last()), ops.last())
    }
}

/// How many of `ops` are creates.
pub open spec fn count_creates(ops: Seq<StoreOp>) -> int
    decreases ops.len(),
{
    if ops.len() == 0 {
        0
    } else {
        count_creates(ops.drop_last()) + if ops.last() is Create {
            1int
        } else {
            0int
        }
    }
}

/// Whether the call at index `c` of `ops`, applied from `s`, creates the todo `id`.
pub open spec fn created_at(s: StoreModel, ops: Seq<StoreOp>, c: int, id: int) -> bool {
    &&& 0 <= c < ops.len()
    &&& ops[c] is Create
    &&& id == s.next_id + count_creates(ops.take(c))
}

/// Whether a call after index `c` of `ops` deletes `id`.
pub open spec fn deleted_after(ops: Seq<StoreOp>, c: int, id: int) -> bool {
    exists|k: int| c < k < ops.len() && #[trigger] ops[k] == StoreOp::Delete(id)
}

/// Whether the todo `id` is still there after `ops`: it was stored at the
/// start, or created by one of `ops`, and no later call deleted it.
pub open spec fn survives(s: StoreModel, ops: Seq<StoreOp>, id: int) -> bool {
    ||| s.has(id) && !deleted_after(ops, -1, id)
    ||| exists|c: int| #[trigger] created_at(s, ops, c, id) && !deleted_after(ops, c, id)
}

proof fn lemma_apply_keeps_wf(s: StoreModel, op: StoreOp)
    requires
        s.wf(),
    ensures
        apply(s, op).wf(),
        apply(s, op).next_id == s.next_id + if op is Create {
            1int
        } else {
            0int
        },
        forall|id: int|
            #[trigger] apply(s, op).has(id) <==> match op {
                StoreOp::Create(_) => s.has(id) || id == s.next_id,
                StoreOp::Delete(d) => s.has(id) && id != d,
                _ => s.has(id),
            },
{
    let a = apply(s, op);
    match op {
        StoreOp::Create(title) => {
            assert forall|id: int| #[trigger] a.has(id) <==> (s.has(id) || id == s.next_id) by {
                if s.has(id) {
                    let i = choose|i: int| 0 <= i < s.rows.len() && #[trigger] s.rows[i].id == id;
                    assert(a.rows[i].id == id);
                }
                if id == s.next_id {
                    assert(a.rows[s.rows.len() as int].id == id);
                }
                if a.has(id) {
                    let i = choose|i: int| 0 <= i < a.rows.len() && #[trigger] a.rows[i].id == id;
                    if i < s.rows.len() {
                        assert(s.rows[i].id == id);
                    }
                }
            };
        },
        StoreOp::Update(id0, title, completed) => {
            assert forall|id: int| #[trigger] a.has(id) <==> s.has(id) by {
                if s.has(id) {
                    let i = choose|i: int| 0 <= i < s.rows.len() && #[trigger] s.rows[i].id == id;
                    assert(a.rows[i].id == id);
                }
                if a.has(id) {
                    let i = choose|i: int| 0 <= i < a.rows.len() && #[trigger] a.rows[i].id == id;
                    assert(s.rows[i].id == id);
                }
            };
        },
        StoreOp::Delete(d) => {
            if let Some(x) = s.index_of(d) {
                assert forall|id: int| #[trigger] a.has(id) <==> (s.has(id) && id != d) by {
                    if s.has(id) && id != d {
                        let i = choose|i: int| 0 <= i < s.rows.len() && #[trigger] s.rows[i].id == id;
                        if i < x {
                            assert(a.rows[i].id == id);
                        } else {
                            assert(a.rows[i - 1].id == id);
                        }
                    }
                    if a.has(id) {
                        let i = choose|i: int| 0 <= i < a.rows.len() && #[trigger] a.rows[i].id == id;
                        if i < x {
                            assert(s.rows[i].id == id);
                            assert(s.rows[i].id < s.rows[x].id);
                        } else {
                            assert(s.rows[i + 1].id == id);
                            assert(s.rows[x].id < s.rows[i + 1].id);
                        }
                    }
                };
            }
        },
        StoreOp::Reorder(ids) => {
            assert forall|id: int| #[trigger] a.has(id) <==> s.has(id) by {
                if s.has(id) {
                    let i = choose|i: int| 0 <= i < s.rows.len() && #[trigger] s.rows[i].id == id;
                    assert(a.rows[i].id == id);
                }
                if a.has(id) {
                    let i = choose|i: int| 0 <= i < a.rows.len() && #[trigger] a.rows[i].id == id;
                    assert(s.rows[i].id == id);
                }
            };
        },
    }
}

proof fn lemma_apply_all_survivors(s: StoreModel, ops: Seq<StoreOp>)
    requires
        s.wf(),
    ensures
        apply_all(s, ops).wf(),
        apply_all(s, ops).next_id == s.next_id + count_creates(ops),
        forall|id: int| #[trigger] apply_all(s, ops).has(id) <==> survives(s, ops, id),
    decreases ops.len(),
{
    if ops.len() > 0 {
        let prev = ops.drop_last();
        let op = ops.last();
        let m = apply_all(s, prev);
        let n = ops.len() - 1;
        lemma_apply_all_survivors(s, prev);
        lemma_apply_keeps_wf(m, op);
        assert(prev.take(n) =~= prev);
        assert forall|c: int| 0 <= c < n implies #[trigger] ops.take(c) == prev.take(c) by {
            assert(ops.take(c) =~= prev.take(c));
        };
        assert(ops.take(n) =~= prev);
        assert forall|id: int| #[trigger] apply_all(s, ops).has(id) <==> survives(s, ops, id) by {
            assert forall|c: int| -1 <= c < n implies #[trigger] deleted_after(ops, c, id) == (
            deleted_after(prev, c, id) || op == StoreOp::Delete(id)) by {
                if deleted_after(ops, c, id) {
                    let k = choose|k: int| c < k < ops.len() && #[trigger] ops[k] == StoreOp::Delete(id);
                    if k < n {
                        assert(prev[k] == ops[k]);
                    }
                }
                if deleted_after(prev, c, id) {
                    let k = choose|k: int| c < k < prev.len() && #[trigger] prev[k] == StoreOp::Delete(id);
                    assert(ops[k] == prev[k]);
                }
                if op == StoreOp::Delete(id) {
                    assert(ops[n] == StoreOp::Delete(id));
                }
            };
            assert forall|c: int| 0 <= c < n implies #[trigger] created_at(s, ops, c, id) == created_at(
                s,
                prev,
                c,
                id,
            ) by {
                assert(ops[c] == prev[c]);
            };
            assert(!deleted_after(ops, n, id));
            if survives(s, ops, id) {
                if s.has(id) && !deleted_after(ops, -1, id) {
                    assert(!deleted_after(prev, -1, id));
                } else {
                    let c = choose|c: int| #[trigger] created_at(s, ops, c, id) && !deleted_after(ops, c, id);
                    if c < n {
                        assert(created_at(s, prev, c, id));
                        assert(!deleted_after(prev, c, id));
                    }
                }
            }
            if apply_all(s, ops).has(id) {
                if m.has(id) {
                    if s.has(id) && !deleted_after(prev, -1, id) {
                    } else {
                        let c = choose|c: int| #[trigger] created_at(s, prev, c, id) && !deleted_after(prev, c, id);
                        assert(created_at(s, ops, c, id));
                    }
                } else {
                    assert(created_at(s, ops, n, id));
                }
            }
        };
    }
}

/// After any sequence of calls, a listing holds exactly the todos that
/// survive them, in listing order.
pub proof fn lemma_listing_after_calls(s: StoreModel, ops: Seq<StoreOp>, out: Seq<TodoRecord>)
    requires
        s.wf(),
        apply_all(s, ops).is_listing(out),
    ensures
        apply_all(s, ops).wf(),
        sorted_by_position(out),
        forall|id: int|
            (exists|i: int| 0 <= i < out.len() && #[trigger] out[i].id == id) <==> survives(s, ops, id),
{
    let m = apply_all(s, ops);
    lemma_apply_all_survivors(s, ops);
    assert forall|id: int|
        (exists|i: int| 0 <= i < out.len() && #[trigger] out[i].id == id) <==> survives(s, ops, id) by {
        assert(m.has(id) <==> survives(s, ops, id));
        if exists|i: int| 0 <= i < out.len() && #[trigger] out[i].id == id {
            let i = choose|i: int| 0 <= i < out.len() && #[trigger] out[i].id == id;
            assert(out.contains(out[i]));
            vstd::seq_lib::to_multiset_contains(out, out[i]);
            vstd::seq_lib::to_multiset_contains(m.rows, out[i]);
            let j = choose|j: int| 0 <= j < m.rows.len() && m.rows[j] == out[i];
            assert(m.rows[j].id == id);
        }
        if m.has(id) {
            let j = choose|j: int| 0 <= j < m.rows.len() && #[trigger] m.rows[j].id == id;
            assert(m.rows.contains(m.rows[j]));
            vstd::seq_lib::to_multiset_contains(out, m.rows[j]);
            vstd::seq_lib::to_multiset_contains(m.rows, m.rows[j]);
            let i = choose|i: int| 0 <= i < out.len() && out[i] == m.rows[j];
            assert(out[i].id == id);
        }
    };
}

} // verus!
