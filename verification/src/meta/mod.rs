//! The metadata service: keyspaces, tables, columns and rows of the database.
pub mod error;
pub mod handlers;
pub mod helpers;
pub mod models;
