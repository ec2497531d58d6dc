//! A todo list kept in order by position: the entity, the storage interface with an
//! in-memory store that implements it, the decisions that a store backed by an
//! SQL engine makes between its statements, and the use-case layer on top.

pub mod errors;
pub mod laws;
pub mod repository;
pub mod requests;
pub mod rules;
pub mod store;
pub mod todo;
pub mod usecases;
