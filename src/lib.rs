//! A small task server: a hand-framed HTTP/1.1 subset, Basic authentication,
//! and an in-memory store of users and tasks.
//!
//! - `framing` decides where a request ends in the bytes read so far.
//! - `request` takes a request apart: method, path, headers, body.
//! - `user` holds users, password hashing and Basic credentials.
//! - `store` holds the user table and the task table, with a model
//!   `StoreView` of both.
//! - `router` states the dispatch as the spec function `route`, in two
//!   stages: `UserTable::authorize` needs only the users, `TaskTable::serve`
//!   only the tasks. `Server::handle_request` runs both.
//! - `laws` proves what holds of every store and request.
//! - `response`, `task`, `json` and `text` write and read the text around them.
//!
//! Each table is changed through `&mut`: a caller that serves connections
//! concurrently guards each with a lock of its own, and never holds both.

pub mod response;
pub mod text;
pub mod request;
pub mod user;
pub mod json;
pub mod task;
pub mod store;
pub mod router;
pub mod laws;
pub mod framing;
