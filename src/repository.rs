use vstd::prelude::*;

use crate::errors::AppError;
use crate::rules::title_view;
use crate::store::{MemoryTodoStore, StoreModel};
use crate::todo::{records, Todo};

verus! {

/// The storage interface: what the use-case layer asks of a store.
///
/// Each implementation has a `model` of its contents. A successful call does
/// exactly what the matching operation of [`StoreModel`] describes; a failed
/// one reports a storage fault, and the contents are then left unspecified.
/// A missing todo is never a failure: lookups and updates return `None`, and
/// deletes `false`.
pub trait TodoRepository {
    /// The contents of the store.
    spec fn model(&self) -> StoreModel;

    /// What the store keeps true between calls.
    spec fn inv(&self) -> bool;

    /// Whatever else a store keeps true, its contents are well formed, so the
    /// laws about [`StoreModel`] apply to it.
    proof fn lemma_inv_wf(&self)
        requires
            self.inv(),
        ensures
            self.model().wf(),
    ;

    fn create(&mut self, title: String) -> (r: Result<Todo, AppError>)
        requires
            old(self).inv(),
        ensures
            r matches Err(e) ==> e is Unexpected,
            final(self).inv(),
            r matches Ok(t) ==> (final(self).model(), t@) == old(self).model().created(title@),
    ;

    fn get_all(&self) -> (r: Result<Vec<Todo>, AppError>)
        requires
            self.inv(),
        ensures
            r matches Err(e) ==> e is Unexpected,
            r matches Ok(v) ==> self.model().is_listing(records(v@)),
    ;

    fn get_by_id(&self, id: u32) -> (r: Result<Option<Todo>, AppError>)
        requires
            self.inv(),
        ensures
            r matches Err(e) ==> e is Unexpected,
            r matches Ok(o) ==> match o {
                Some(t) => self.model().lookup(id as int) == Some(t@),
                None => self.model().lookup(id as int) is None,
            },
    ;

    fn update(&mut self, id: u32, title: Option<String>, completed: Option<bool>) -> (r: Result<
        Option<Todo>,
        AppError,
    >)
        requires
            old(self).inv(),
        ensures
            r matches Err(e) ==> e is Unexpected,
            final(self).inv(),
            r matches Ok(o) ==> final(self).model() == old(self).model().updated(
                id as int,
                title_view(title),
                completed,
            ).0 && match o {
                Some(t) => old(self).model().updated(id as int, title_view(title), completed).1
                    == Some(t@),
                None => old(self).model().updated(id as int, title_view(title), completed).1 is None,
            },
    ;

    fn delete(&mut self, id: u32) -> (r: Result<bool, AppError>)
        requires
            old(self).inv(),
        ensures
            r matches Err(e) ==> e is Unexpected,
            final(self).inv(),
            r matches Ok(b) ==> (final(self).model(), b) == old(self).model().deleted(id as int),
    ;

    fn reorder(&mut self, todo_ids: Vec<i64>) -> (r: Result<(), AppError>)
        requires
            old(self).inv(),
            todo_ids@.len() <= i64::MAX,
        ensures
            r matches Err(e) ==> e is Unexpected,
            final(self).inv(),
            r is Ok ==> final(self).model() == old(self).model().reordered_by(todo_ids@),
    ;
}

impl TodoRepository for MemoryTodoStore {
    open spec fn model(&self) -> StoreModel {
        self@
    }

    open spec fn inv(&self) -> bool {
        self.wf()
    }

    proof fn lemma_inv_wf(&self) {
    }

    fn create(&mut self, title: String) -> (r: Result<Todo, AppError>) {
        MemoryTodoStore::create(self, title)
    }

    fn get_all(&self) -> (r: Result<Vec<Todo>, AppError>) {
        MemoryTodoStore::get_all(self)
    }

    fn get_by_id(&self, id: u32) -> (r: Result<Option<Todo>, AppError>) {
        MemoryTodoStore::get_by_id(self, id)
    }

    fn update(&mut self, id: u32, title: Option<String>, completed: Option<bool>) -> (r: Result<
        Option<Todo>,
        AppError,
    >) {
        MemoryTodoStore::update(self, id, title, completed)
    }

    fn delete(&mut self, id: u32) -> (r: Result<bool, AppError>) {
        MemoryTodoStore::delete(self, id)
    }

    fn reorder(&mut self, todo_ids: Vec<i64>) -> (r: Result<(), AppError>) {
        MemoryTodoStore::reorder(self, todo_ids)
    }
}

} // verus!
