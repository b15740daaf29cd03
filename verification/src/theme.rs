//! The life of a theme: creating it, listing the themes, putting one to
//! use, and removing it.

pub mod apply;
pub mod create;
pub mod delete;
pub mod laws;
pub mod list;
