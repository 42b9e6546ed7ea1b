//! What a command prints: one document, for an agent to read and act on.

use vstd::prelude::*;

verus! {

/// What the reader of a document is to do next.
#[derive(Clone, Debug)]
pub struct Internal<P> {
    pub next_action: P,
    pub next_command: Option<P>,
    pub progress: Option<P>,
}

/// What an install leaves behind.
#[derive(Clone, Debug)]
pub struct Installed<P> {
    /// The installer that ran.
    pub installer: P,
    /// Shows how the daemon is doing.
    pub status_command: P,
    /// Stops the daemon.
    pub stop_command: P,
}

/// A document.
#[derive(Clone, Debug)]
pub enum Output<P> {
    Error {
        message: P,
        code: P,
        category: P,
        retryable: bool,
        suggestion: P,
        internal: Internal<P>,
    },
    Success { message: P, data: Installed<P>, internal: Internal<P> },
}

impl View for Internal<String> {
    type V = Internal<Seq<char>>;

    open spec fn view(&self) -> Internal<Seq<char>> {
        Internal {
            next_action: self.next_action@,
            next_command: crate::paths::opt_view(self.next_command),
            progress: crate::paths::opt_view(self.progress),
        }
    }
}

impl View for Installed<String> {
    type V = Installed<Seq<char>>;

    open spec fn view(&self) -> Installed<Seq<char>> {
        Installed {
            installer: self.installer@,
            status_command: self.status_command@,
            stop_command: self.stop_command@,
        }
    }
}

impl View for Output<String> {
    type V = Output<Seq<char>>;

    open spec fn view(&self) -> Output<Seq<char>> {
        match *self {
            Output::Error { message, code, category, retryable, suggestion, internal } =>
                Output::Error {
                message: message@,
                code: code@,
                category: category@,
                retryable,
                suggestion: suggestion@,
                internal: internal@,
            },
            Output::Success { message, data, internal } => Output::Success {
                message: message@,
                data: data@,
                internal: internal@,
            },
        }
    }
}

} // verus!
