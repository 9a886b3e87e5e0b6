//! A small query layer for a MySQL-flavoured users/posts schema.
//!
//! Statements are plain values built from columns and optional values, and
//! each kind of statement is turned into text by one verified rendering pass.
//! The text carries backtick-quoted identifiers, `?` placeholders and a
//! trailing list of the bound values.
//!
//! The users table is also there as a value, with what each statement does
//! to it, so that what is promised of inserts, upserts, updates, deletes and
//! reads is stated and proved rather than left to a database.

pub mod text;
pub mod insert;
pub mod query;
pub mod users;
pub mod apply;
pub mod form;
pub mod facade;
