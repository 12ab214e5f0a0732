//! A todo list: the records it keeps, the store that owns them, the mapping
//! of store failures onto HTTP status codes, and the routing of requests.
pub mod error;
pub mod laws;
pub mod route;
pub mod store;
pub mod todo;
