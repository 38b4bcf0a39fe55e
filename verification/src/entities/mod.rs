//! The surrounding product's domain entities, modelled as plain data.

pub mod collaboration;
pub mod document;
pub mod drive;
pub mod file;
pub mod forms;
pub mod share;
pub mod user;
pub mod spreadsheet;
