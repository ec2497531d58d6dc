//! One operation per call of the storage interface. Each passes its input to the
//! repository and hands back what it returns, so that callers depend on this
//! layer rather than on a concrete store.

pub mod create;
pub mod delete;
pub mod get;
pub mod list;
pub mod reorder;
pub mod update;
