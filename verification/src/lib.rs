//! An address book that is searched as you type: records, the live filter,
//! the command line grammar and the decisions of the terminal loop.

pub mod command;
pub mod filter;
pub mod guard;
pub mod record;
pub mod render;
pub mod session;
pub mod storage;
pub mod text;
