//! The decisions of the commands.

pub mod auto_mine;
pub mod run_loop;
