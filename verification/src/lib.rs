//! The logic of a mining agent: the record of commits that still have to be
//! revealed, the locked update of that record on disk, and the decisions of the
//! commands that install and drive unattended mining.
//!
//! Nothing here touches a file, a process, a clock or a signal. A caller performs
//! those and hands what it saw to the functions of this library.

pub mod cmd;
pub mod order;
pub mod output;
pub mod paths;
pub mod pending;
pub mod probe;
pub mod serial;
pub mod shell;
pub mod state;
pub mod text;
pub mod update;

