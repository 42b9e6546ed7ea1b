//! What a command learns from its surroundings: variables, files, child processes.
//!
//! The types take the type of their texts as a parameter: `String` where they are
//! handed over, a sequence of characters where contracts speak of them.

use vstd::prelude::*;

verus! {

/// How a child process ended.
#[derive(Clone, Debug)]
pub enum Exit<P> {
    /// It could not be started, for this reason.
    NotStarted(P),
    Succeeded,
    /// It failed with this exit code; without one where a signal ended it.
    Failed(Option<i32>),
}

/// What the caller has found out.
#[derive(Clone, Debug)]
pub enum Seen<P> {
    /// The value of an environment variable, where it is set and is text.
    Var(Option<P>),
    /// Whether a file or directory is there.
    Present(bool),
    /// How a child process ended.
    Ran(Exit<P>),
}

impl View for Exit<String> {
    type V = Exit<Seq<char>>;

    open spec fn view(&self) -> Exit<Seq<char>> {
        match *self {
            Exit::NotStarted(cause) => Exit::NotStarted(cause@),
            Exit::Succeeded => Exit::Succeeded,
            Exit::Failed(code) => Exit::Failed(code),
        }
    }
}

impl View for Seen<String> {
    type V = Seen<Seq<char>>;

    open spec fn view(&self) -> Seen<Seq<char>> {
        match *self {
            Seen::Var(v) => Seen::Var(crate::paths::opt_view(v)),
            Seen::Present(b) => Seen::Present(b),
            Seen::Ran(exit) => Seen::Ran(exit@),
        }
    }
}

/// What contracts speak of is what was handed over.
pub proof fn law_views_keep_what_was_seen(exit: Exit<String>, seen: Seen<String>)
    ensures
        exit matches Exit::NotStarted(cause) ==> exit@ == Exit::NotStarted(cause@),
        exit is Succeeded <==> exit@ is Succeeded,
        exit matches Exit::Failed(code) ==> exit@ == Exit::<Seq<char>>::Failed(code),
        seen matches Seen::Var(Some(text)) ==> seen@ == Seen::Var(Some(text@)),
        seen matches Seen::Var(None) ==> seen@ == Seen::<Seq<char>>::Var(None),
        seen matches Seen::Present(there) ==> seen@ == Seen::<Seq<char>>::Present(there),
        seen matches Seen::Ran(ended) ==> seen@ == Seen::Ran(ended@),
{
}

/// The number that an exit code is reported as: -1 where there is none.
pub open spec fn reported_code(code: Option<i32>) -> i32 {
    match code {
        Some(c) => c,
        None => -1i32,
    }
}

/// The number that an exit code is reported as.
pub fn code_or_minus_one(code: Option<i32>) -> (r: i32)
    ensures
        r == reported_code(code),
        code matches Some(c) ==> r == c,
        code is None ==> r == -1,
{
    match code {
        Some(c) => c,
        None => -1,
    }
}

} // verus!
