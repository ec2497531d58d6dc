use vstd::prelude::*;

use crate::errors::AppError;
use crate::rules::{
    assigned_position, created_todo, listed_before, max_position, merge_update, merged,
    next_position, next_position_after, reordered, sorted_by_position, title_view,
};
use crate::todo::{records, Todo, TodoRecord};

verus! {

/// The contents of a store: its rows in order of creation, and the id the next
/// created todo will get.
pub ghost struct StoreModel {
    pub rows: Seq<TodoRecord>,
    pub next_id: int,
}

impl StoreModel {
    /// Ids are positive, unique, ascending in creation order, and all below
    /// `next_id`, so that an id is never handed out twice.
    pub open spec fn wf(self) -> bool {
        &&& self.next_id >= 1
        &&& forall|i: int, j: int|
            0 <= i < j < self.rows.len() ==> #[trigger] self.rows[i].id < #[trigger] self.rows[j].id
        &&& forall|i: int| 0 <= i < self.rows.len() ==> 1 <= #[trigger] self.rows[i].id < self.next_id
    }

    /// Whether a todo with this id is stored.
    pub open spec fn has(self, id: int) -> bool {
        exists|i: int| 0 <= i < self.rows.len() && #[trigger] self.rows[i].id == id
    }

    /// The index of the row with this id, where there is one.
    pub open spec fn index_of(self, id: int) -> Option<int> {
        if self.has(id) {
            Some(choose|i: int| 0 <= i < self.rows.len() && #[trigger] self.rows[i].id == id)
        } else {
            None
        }
    }

    /// The stored todo with this id, or `None`.
    pub open spec fn lookup(self, id: int) -> Option<TodoRecord> {
        match self.index_of(id) {
            Some(i) => Some(self.rows[i]),
            None => None,
        }
    }

    /// The todo that `create(title)` stores and returns, with the store after it.
    pub open spec fn created(self, title: Seq<char>) -> (StoreModel, TodoRecord) {
        let t = TodoRecord {
            id: self.next_id,
            title,
            completed: false,
            position: next_position_after(max_position(self.rows)),
        };
        (StoreModel { rows: self.rows.push(t), next_id: self.next_id + 1 }, t)
    }

    /// The store after `update(id, title, completed)`, and what it returns.
    pub open spec fn updated(
        self,
        id: int,
        title: Option<Seq<char>>,
        completed: Option<bool>,
    ) -> (StoreModel, Option<TodoRecord>) {
        match self.index_of(id) {
            Some(i) => {
                let t = merged(self.rows[i], title, completed);
                (StoreModel { rows: self.rows.update(i, t), ..self }, Some(t))
            },
            None => (self, None),
        }
    }

    /// The store after `delete(id)`, and whether a row went.
    pub open spec fn deleted(self, id: int) -> (StoreModel, bool) {
        match self.index_of(id) {
            Some(i) => (StoreModel { rows: self.rows.remove(i), ..self }, true),
            None => (self, false),
        }
    }

    /// The store after `reorder(ids)`: each todo named in `ids` moves to the
    /// index of its last occurrence there; the others keep their position.
    pub open spec fn reordered_by(self, ids: Seq<i64>) -> StoreModel {
        StoreModel { rows: self.rows.map_values(|t: TodoRecord| reordered(t, ids)), ..self }
    }

    /// Whether `out` is what `get_all` returns: every stored todo once, in
    /// listing order.
    pub open spec fn is_listing(self, out: Seq<TodoRecord>) -> bool {
        &&& sorted_by_position(out)
        &&& out.to_multiset() == self.rows.to_multiset()
    }
}

/// A store that keeps its todos in memory, with the semantics of the storage
/// interface.
pub struct MemoryTodoStore {
    rows: Vec<Todo>,
    next_id: i64,
}

impl View for MemoryTodoStore {
    type V = StoreModel;

    closed spec fn view(&self) -> StoreModel {
        StoreModel { rows: records(self.rows@), next_id: self.next_id as int }
    }
}

fn is_listed_before(a: &Todo, b: &Todo) -> (r: bool)
    ensures
        r == listed_before(a@, b@),
{
    a.position < b.position || (a.position == b.position && a.id < b.id)
}

/// Puts `t` into the listing `out` at its place and returns that index.
fn insert_in_order(out: &mut Vec<Todo>, t: Todo) -> (p: usize)
    requires
        sorted_by_position(records(old(out)@)),
        forall|q: int|
            0 <= q < old(out)@.len() ==> (#[trigger] records(old(out)@)[q]).id != t@.id,
    ensures
        p <= old(out)@.len(),
        records(final(out)@) == records(old(out)@).insert(p as int, t@),
        sorted_by_position(records(final(out)@)),
{
    let ghost s = records(out@);
    let ghost x = t@;
    let mut p: usize = 0;
    while p < out.len() && is_listed_before(&out[p], &t)
        invariant
            p <= out@.len(),
            s == records(out@),
            x == t@,
            forall|q: int| 0 <= q < p ==> listed_before(#[trigger] s[q], x),
        decreases out@.len() - p,
    {
        p = p + 1;
    }
    assert forall|q: int| p <= q < s.len() implies listed_before(x, #[trigger] s[q]) by {
        assert(!listed_before(s[p as int], x));
        if q > p {
            assert(listed_before(s[p as int], s[q]));
        }
    };
    out.insert(p, t);
    let ghost s2 = records(out@);
    assert(s2 =~= s.insert(p as int, x));
    assert forall|a: int, b: int| 0 <= a < b < s2.len() implies listed_before(
        #[trigger] s2[a],
        #[trigger] s2[b],
    ) by {
        if b < p {
        } else if b == p {
        } else if a < p {
            assert(listed_before(s[a], x));
        } else if a == p {
        } else {
            assert(listed_before(s[a - 1], s[b - 1]));
        }
    };
    p
}

impl MemoryTodoStore {
    /// The store's contents are well formed (see [`StoreModel::wf`]).
    pub open spec fn wf(&self) -> bool {
        self@.wf()
    }

    /// An empty store; the first todo gets id 1.
    pub fn new() -> (r: MemoryTodoStore)
        ensures
            r.wf(),
            r@.rows.len() == 0,
            r@.next_id == 1,
    {
        let r = MemoryTodoStore { rows: Vec::new(), next_id: 1 };
        assert(records(r.rows@) =~= Seq::<TodoRecord>::empty());
        r
    }

    fn find(&self, id: i64) -> (r: Option<usize>)
        requires
            self.wf(),
        ensures
            match r {
                Some(i) => self@.index_of(id as int) == Some(i as int),
                None => self@.index_of(id as int) is None,
            },
    {
        let mut i: usize = 0;
        while i < self.rows.len()
            invariant
                self.wf(),
                i <= self.rows@.len(),
                forall|j: int| 0 <= j < i ==> (#[trigger] self.rows@[j]).id != id,
            decreases self.rows@.len() - i,
        {
            if self.rows[i].id == id {
                let ghost rows = self@.rows;
                assert(rows[i as int].id == id);
                assert(self@.has(id as int));
                let ghost c = choose|c: int| 0 <= c < rows.len() && #[trigger] rows[c].id == id;
                assert(c == i) by {
                    let k = i as int;
                    if c < k {
                        assert(rows[c].id < rows[k].id);
                    } else if c > k {
                        assert(rows[k].id < rows[c].id);
                    }
                };
                return Some(i);
            }
            i = i + 1;
        }
        assert(!self@.has(id as int)) by {
            if self@.has(id as int) {
                let c = choose|c: int| 0 <= c < self@.rows.len() && #[trigger] self@.rows[c].id == id;
                assert(self.rows@[c].id == id);
            }
        };
        None
    }

    fn largest_position(&self) -> (r: Option<i64>)
        ensures
            match r {
                Some(m) => max_position(self@.rows) == Some(m as int),
                None => max_position(self@.rows) is None,
            },
    {
        let ghost rows = self@.rows;
        let mut acc: Option<i64> = None;
        let mut i: usize = 0;
        while i < self.rows.len()
            invariant
                i <= self.rows@.len(),
                rows == self@.rows,
                match acc {
                    Some(m) => max_position(rows.take(i as int)) == Some(m as int),
                    None => max_position(rows.take(i as int)) is None,
                },
            decreases self.rows@.len() - i,
        {
            assert(rows.take(i + 1).drop_last() =~= rows.take(i as int));
            let p = self.rows[i].position;
            acc = match acc {
                None => Some(p),
                Some(m) => Some(if p > m { p } else { m }),
            };
            i = i + 1;
        }
        assert(rows.take(i as int) =~= rows);
        acc
    }

    /// Stores a new todo with a fresh id, not completed, one position past the
    /// largest stored one. Fails, changing nothing, only where the id or the
    /// position would leave the range of `i64`.
    pub fn create(&mut self, title: String) -> (r: Result<Todo, AppError>)
        requires
            old(self).wf(),
        ensures
            final(self).wf(),
            r is Err <==> (old(self)@.next_id == i64::MAX || max_position(old(self)@.rows) == Some(
                i64::MAX as int,
            )),
            r matches Ok(t) ==> (final(self)@, t@) == old(self)@.created(title@),
            r matches Err(e) ==> e is Unexpected && final(self)@ == old(self)@,
    {
        let max = self.largest_position();
        let position = match next_position(max) {
            Ok(p) => p,
            Err(e) => return Err(e),
        };
        if self.next_id == i64::MAX {
            return Err(AppError::Unexpected("id space exhausted".to_string()));
        }
        let id = self.next_id;
        let todo = created_todo(id, title, position);
        self.rows.push(todo.duplicate());
        self.next_id = id + 1;
        assert(records(self.rows@) =~= records(old(self).rows@).push(todo@));
        Ok(todo)
    }

    /// The stored todo with this id, or `None`; never fails.
    pub fn get_by_id(&self, id: u32) -> (r: Result<Option<Todo>, AppError>)
        requires
            self.wf(),
        ensures
            r matches Ok(o) && match o {
                Some(t) => self@.lookup(id as int) == Some(t@),
                None => self@.lookup(id as int) is None,
            },
    {
        match self.find(id as i64) {
            Some(i) => Ok(Some(self.rows[i].duplicate())),
            None => Ok(None),
        }
    }

    /// Applies the given fields to the todo with this id and returns it as
    /// stored; returns `None`, changing nothing, where there is no such todo.
    /// Never fails.
    pub fn update(&mut self, id: u32, title: Option<String>, completed: Option<bool>) -> (r: Result<
        Option<Todo>,
        AppError,
    >)
        requires
            old(self).wf(),
        ensures
            final(self).wf(),
            r matches Ok(o) && final(self)@ == old(self)@.updated(id as int, title_view(title), completed).0
                && match o {
                Some(t) => old(self)@.updated(id as int, title_view(title), completed).1 == Some(t@),
                None => old(self)@.updated(id as int, title_view(title), completed).1 is None,
            },
    {
        match self.find(id as i64) {
            Some(i) => {
                let current = self.rows[i].duplicate();
                let todo = merge_update(current, title, completed);
                self.rows.set(i, todo.duplicate());
                assert(records(self.rows@) =~= records(old(self).rows@).update(i as int, todo@));
                Ok(Some(todo))
            },
            None => Ok(None),
        }
    }

    /// Removes the todo with this id; returns whether there was one. Never
    /// fails.
    pub fn delete(&mut self, id: u32) -> (r: Result<bool, AppError>)
        requires
            old(self).wf(),
        ensures
            final(self).wf(),
            r matches Ok(b) && (final(self)@, b) == old(self)@.deleted(id as int),
    {
        match self.find(id as i64) {
            Some(i) => {
                self.rows.remove(i);
                assert(records(self.rows@) =~= records(old(self).rows@).remove(i as int));
                Ok(true)
            },
            None => Ok(false),
        }
    }

    /// Moves the todo named at each index of `todo_ids` to that index, in
    /// order, so the last occurrence of an id wins; ids that name no todo are
    /// passed over, and todos not named keep their position. Never fails.
    pub fn reorder(&mut self, todo_ids: Vec<i64>) -> (r: Result<(), AppError>)
        requires
            old(self).wf(),
            todo_ids@.len() <= i64::MAX,
        ensures
            final(self).wf(),
            r is Ok,
            final(self)@ == old(self)@.reordered_by(todo_ids@),
    {
        let ghost start = self@.rows;
        let ghost ids = todo_ids@;
        let mut k: usize = 0;
        while k < todo_ids.len()
            invariant
                self.wf(),
                k <= ids.len() <= i64::MAX,
                ids == todo_ids@,
                self@.next_id == old(self)@.next_id,
                self@.rows.len() == start.len(),
                forall|i: int|
                    0 <= i < start.len() ==> #[trigger] self@.rows[i] == reordered(
                        start[i],
                        ids.take(k as int),
                    ),
            decreases ids.len() - k,
        {
            let ghost before = self@.rows;
            assert(ids.take(k + 1).drop_last() =~= ids.take(k as int));
            match self.find(todo_ids[k]) {
                Some(p) => {
                    let mut t = self.rows[p].duplicate();
                    t.position = k as i64;
                    self.rows.set(p, t);
                    assert(records(self.rows@) =~= before.update(p as int, t@));
                    assert forall|i: int| 0 <= i < start.len() implies #[trigger] self@.rows[i]
                        == reordered(start[i], ids.take(k + 1)) by {
                        if i != p {
                            assert(before[i].id != before[p as int].id);
                        }
                    };
                },
                None => {
                    assert forall|i: int| 0 <= i < start.len() implies #[trigger] self@.rows[i]
                        == reordered(start[i], ids.take(k + 1)) by {
                        if before[i].id == ids[k as int] {
                            assert(self@.has(ids[k as int] as int));
                        }
                    };
                },
            }
            k = k + 1;
        }
        assert(ids.take(k as int) =~= ids);
        assert(self@.rows =~= start.map_values(|t: TodoRecord| reordered(t, ids)));
        Ok(())
    }

    /// Every stored todo once, by ascending position, and by ascending id
    /// among equal positions. Never fails.
    pub fn get_all(&self) -> (r: Result<Vec<Todo>, AppError>)
        requires
            self.wf(),
        ensures
            r matches Ok(v) && self@.is_listing(records(v@)),
    {
        let ghost rows = self@.rows;
        let mut out: Vec<Todo> = Vec::new();
        let mut i: usize = 0;
        assert(rows.take(0) =~= Seq::<TodoRecord>::empty());
        assert(records(out@) =~= Seq::<TodoRecord>::empty());
        while i < self.rows.len()
            invariant
                self.wf(),
                rows == self@.rows,
                i <= rows.len(),
                sorted_by_position(records(out@)),
                records(out@).to_multiset() == rows.take(i as int).to_multiset(),
            decreases rows.len() - i,
        {
            let ghost s = records(out@);
            assert forall|q: int| 0 <= q < s.len() implies (#[trigger] s[q]).id != rows[i as int].id by {
                assert(s.contains(s[q]));
                vstd::seq_lib::to_multiset_contains(s, s[q]);
                vstd::seq_lib::to_multiset_contains(rows.take(i as int), s[q]);
                assert(rows.take(i as int).contains(s[q]));
                let k = choose|k: int| 0 <= k < i && rows.take(i as int)[k] == s[q];
                assert(rows[k].id < rows[i as int].id);
            };
            let p = insert_in_order(&mut out, self.rows[i].duplicate());
            proof {
                vstd::seq_lib::to_multiset_insert(s, p as int, rows[i as int]);
                vstd::seq_lib::to_multiset_build(rows.take(i as int), rows[i as int]);
                assert(rows.take(i + 1) =~= rows.take(i as int).push(rows[i as int]));
            }
            i = i + 1;
        }
        assert(rows.take(i as int) =~= rows);
        Ok(out)
    }
}

} // verus!
