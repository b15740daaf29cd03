//! The ledgers of a dotfile manager: themes, the configs they hold and the
//! packages they depend on, with every change to the filesystem planned as
//! a list of steps for the caller to carry out.

pub mod cli;
pub mod config;
pub mod dependency;
pub mod device;
pub mod error;
pub mod git;
pub mod plan;
pub mod print;
pub mod record;
pub mod sequences;
pub mod storage;
pub mod theme;
pub mod utils;
