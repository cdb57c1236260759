//! A ranked list whose entries occupy the positions `1..=N` without gaps.
//!
//! The list lives in a store of three tables: the entries, the players, and
//! the rows that credit players as creators of entries. A [`connection::Connection`]
//! holds the tables in memory and keeps a journal of every statement carried
//! out on them, so that the same statements can be carried out on a database
//! afterwards. [`database::Database`] is the store as a mathematical value;
//! every operation states what it does to that value.
//!
//! - [`reorder`] moves an entry to another position and shifts the entries in
//!   between, keeping the positions dense.
//! - [`patch`] applies a set of changes to one entry, all of them or none.
//! - [`player`] looks players up by name, creating them where needed, and
//!   [`creator`] credits them for entries.
//! - [`version`] gives every entry a token that changes with each of its
//!   fields, and refuses changes made against an outdated token.
//! - [`post`] creates entries, and [`api`] offers the operations by position
//!   and by key.

pub mod api;
pub mod cistring;
pub mod connection;
pub mod creator;
pub mod database;
pub mod demon;
pub mod error;
pub mod patch;
pub mod player;
pub mod post;
pub mod reorder;
pub mod statement;
pub mod version;
pub mod video;
