//! A store of named text snippets with two interchangeable backends, together
//! with the small helpers that the command-line tools around it share.
//!
//! The store itself: `snippet` is the unit of storage, `storage` the contract
//! of a backend and the repository over it, `json_storage` the file-backed
//! backend (over `records` and `document`), `sqlite_storage` the relational
//! one, and `selector` the choice between them. Nothing here reads or
//! writes a file or a database: a backend says what is to be written or
//! run, and the program around it does that.
//!
//! Beside it: `catalog` is the strict snippet book, `naming` and `settings`
//! serve the download tool, `users` is a keyed user repository, and `post`
//! a post under moderation.

pub mod catalog;
pub mod clock;
pub mod document;
pub mod json_storage;
pub mod naming;
pub mod post;
pub mod records;
pub mod selector;
pub mod settings;
pub mod snippet;
pub mod sqlite_storage;
pub mod storage;
pub mod text;
pub mod users;
