use vstd::prelude::*;

use crate::errors::AppError;
use crate::todo::{Todo, TodoRecord};

verus! {

/// The largest position among `rows`, or `None` for no rows.
pub open spec fn max_position(rows: Seq<TodoRecord>) -> Option<int>
    decreases rows.len(),
{
    if rows.len() == 0 {
        None
    } else {
        let last = rows.last().position;
        match max_position(rows.drop_last()) {
            None => Some(last),
            Some(m) => Some(if last > m { last } else { m }),
        }
    }
}

/// The position a new todo gets: one past the largest, or 1 in an empty store.
pub open spec fn next_position_after(max: Option<int>) -> int {
    match max {
        None => 1,
        Some(m) => m + 1,
    }
}

/// An optional machine integer as an optional mathematical one.
pub open spec fn int_option(o: Option<i64>) -> Option<int> {
    match o {
        Some(m) => Some(m as int),
        None => None,
    }
}

/// A todo after a partial update: each field that is given replaces the old
/// one; id and position never change.
pub open spec fn merged(
    t: TodoRecord,
    title: Option<Seq<char>>,
    completed: Option<bool>,
) -> TodoRecord {
    TodoRecord {
        title: match title {
            Some(s) => s,
            None => t.title,
        },
        completed: match completed {
            Some(c) => c,
            None => t.completed,
        },
        ..t
    }
}

/// The view of an optional new title.
pub open spec fn title_view(title: Option<String>) -> Option<Seq<char>> {
    match title {
        Some(s) => Some(s@),
        None => None,
    }
}

/// The position that reordering by `ids` gives the todo `id` whose position was
/// `current`: the index of the last occurrence of `id` in `ids`, or `current`
/// where `id` does not occur.
pub open spec fn assigned_position(ids: Seq<i64>, id: int, current: int) -> int
    decreases ids.len(),
{
    if ids.len() == 0 {
        current
    } else if ids.last() as int == id {
        ids.len() - 1
    } else {
        assigned_position(ids.drop_last(), id, current)
    }
}

/// The todo `t` after reordering by `ids`.
pub open spec fn reordered(t: TodoRecord, ids: Seq<i64>) -> TodoRecord {
    TodoRecord { position: assigned_position(ids, t.id, t.position), ..t }
}

/// Whether `a` is listed before `b`: by ascending position, and by ascending id
/// among equal positions.
pub open spec fn listed_before(a: TodoRecord, b: TodoRecord) -> bool {
    a.position < b.position || (a.position == b.position && a.id < b.id)
}

/// Whether `s` is in listing order, with no todo twice.
pub open spec fn sorted_by_position(s: Seq<TodoRecord>) -> bool {
    forall|i: int, j: int| 0 <= i < j < s.len() ==> listed_before(#[trigger] s[i], #[trigger] s[j])
}

/// One write of a reorder: `id` moves to `position`.
#[derive(Debug, Clone, Copy, PartialEq, Eq)]
pub struct PositionAssignment {
    pub id: i64,
    pub position: i64,
}

/// The position for a new todo, given the largest position stored (`None` for
/// an empty store). A store whose largest position is `i64::MAX` has no room
/// left, which is a storage fault.
pub fn next_position(max_position: Option<i64>) -> (r: Result<i64, AppError>)
    ensures
        r is Err <==> max_position == Some(i64::MAX),
        r matches Ok(p) ==> p as int == next_position_after(int_option(max_position)),
        r matches Err(e) ==> e is Unexpected,
{
    match max_position {
        None => Ok(1),
        Some(m) => {
            if m == i64::MAX {
                Err(AppError::Unexpected("position space exhausted".to_string()))
            } else {
                Ok(m + 1)
            }
        },
    }
}

/// A freshly stored todo: not completed, with the id the store assigned and the
/// position computed by [`next_position`].
pub fn created_todo(id: i64, title: String, position: i64) -> (r: Todo)
    ensures
        r@ == (TodoRecord { id: id as int, title: title@, completed: false, position: position as int }),
{
    Todo { id, title, completed: false, position }
}

/// Applies a partial update to `current`: each given field replaces the old
/// one, the others are kept.
pub fn merge_update(current: Todo, title: Option<String>, completed: Option<bool>) -> (r: Todo)
    ensures
        r@ == merged(current@, title_view(title), completed),
{
    let mut todo = current;
    if let Some(new_title) = title {
        todo.title = new_title;
    }
    if let Some(new_completed) = completed {
        todo.completed = new_completed;
    }
    todo
}

/// The writes of a reorder by `ids`, in order: the todo at index `k` of `ids`
/// moves to position `k`.
pub fn reorder_assignments(ids: &Vec<i64>) -> (r: Vec<PositionAssignment>)
    requires
        ids@.len() <= i64::MAX,
    ensures
        r@.len() == ids@.len(),
        forall|k: int|
            0 <= k < ids@.len() ==> #[trigger] r@[k] == (PositionAssignment {
                id: ids@[k],
                position: k as i64,
            }),
{
    let mut out: Vec<PositionAssignment> = Vec::new();
    let mut k: usize = 0;
    while k < ids.len()
        invariant
            k <= ids@.len() <= i64::MAX,
            out@.len() == k,
            forall|j: int|
                0 <= j < k ==> #[trigger] out@[j] == (PositionAssignment {
                    id: ids@[j],
                    position: j as i64,
                }),
        decreases ids@.len() - k,
    {
        out.push(PositionAssignment { id: ids[k], position: k as i64 });
        k = k + 1;
    }
    out
}

/// Whether a delete removed a row, from the number of rows it affected.
pub fn removed_any(rows_affected: u64) -> (r: bool)
    ensures
        r == (rows_affected > 0),
{
    rows_affected > 0
}

} // verus!
