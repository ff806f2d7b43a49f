//! A concurrent-ready todo-item store and the request-validation protocol
//! in front of it.
//!
//! The store ([`store::TodoList`]) owns todo records, assigns each a fresh
//! identifier on creation, and hands out copies only. The validator
//! ([`validator`]) turns untyped form fields ([`form::FormData`]) and
//! identifier strings into store mutations or explicit rejections: required
//! fields are all-or-nothing, unparsable dates fall back to a sentinel
//! ([`date`]), and toggling an unknown identifier is a silent no-op.
//! [`shared`] puts one verified lock around the store, as the handlers
//! share it. [`laws`] states and proves the properties the pieces promise
//! together.

pub mod date;
pub mod form;
pub mod ids;
pub mod laws;
pub mod shared;
pub mod store;
pub mod validator;
