//! The locked update of the state file: load, change and save under an exclusive
//! lock, so that two updates at once take place one after the other and neither is
//! lost.
//!
//! The caller performs one `Action` at a time and reports it as an `Event`. Every
//! load-change-save goes through here; a load without the lock is for reading only.

use vstd::prelude::*;

use crate::paths::StatePaths;
use crate::state::State;

verus! {

/// Where an update failed.
#[derive(Clone, Copy, Debug, PartialEq, Eq, Structural)]
pub enum Fault {
    /// The lock file could not be opened.
    OpenLock,
    /// The lock could not be taken.
    TakeLock,
    /// The state file is there and could not be read.
    Read,
    /// The change itself failed.
    Change,
    /// The new state could not be encoded.
    Encode,
    /// The temporary file could not be written.
    Write,
    /// The temporary file could not take the place of the state file.
    Replace,
}

/// How an update ended.
#[derive(Clone, Copy, Debug, PartialEq, Eq, Structural)]
pub enum Outcome {
    Saved,
    Failed(Fault),
}

/// How far an update has come: what it waits for.
#[derive(Clone, Copy, Debug, PartialEq, Eq, Structural)]
pub enum Stage {
    MakeDir,
    OpenLock,
    TakeLock,
    Load,
    Change,
    Encode,
    WriteTemp,
    Replace,
    /// The outcome is known and the lock is still held.
    Release(Outcome),
    Closed(Outcome),
}

/// What the caller reports.
pub enum Event {
    /// The directory is there, or could not be made.
    DirTried,
    LockOpened,
    /// The exclusive lock is held.
    LockTaken,
    /// What `State::load` gave.
    Loaded(State),
    /// The state after a change that succeeded.
    Changed(State),
    /// The text that stands for the new state.
    Encoded(String),
    TempWritten,
    /// The temporary file has taken the place of the state file.
    Replaced,
    /// The lock is free again, or was given up.
    Released,
    /// What was asked for failed.
    Failed,
}

/// What the caller is to do next.
pub enum Action {
    /// Make the directory of the state file; a failure does not matter.
    MakeDir,
    OpenLock,
    /// Wait for the exclusive lock.
    TakeLock,
    Load,
    /// Apply the change to this state.
    Change(State),
    /// Encode this state as text.
    Encode(State),
    /// Write this text to the temporary file.
    WriteTemp(String),
    /// Rename the temporary file to the state file.
    Replace,
    Release,
    Finish(Outcome),
}

impl Stage {
    /// `e` reports on what is asked for at this stage.
    pub open spec fn accepts(self, e: Event) -> bool {
        match self {
            Stage::MakeDir => e is DirTried,
            Stage::OpenLock => e is LockOpened || e is Failed,
            Stage::TakeLock => e is LockTaken || e is Failed,
            Stage::Load => e is Loaded || e is Failed,
            Stage::Change => e is Changed || e is Failed,
            Stage::Encode => e is Encoded || e is Failed,
            Stage::WriteTemp => e is TempWritten || e is Failed,
            Stage::Replace => e is Replaced || e is Failed,
            Stage::Release(_) => e is Released,
            Stage::Closed(_) => false,
        }
    }

    /// What a failure at this stage is.
    pub open spec fn fault(self) -> Fault {
        match self {
            Stage::OpenLock => Fault::OpenLock,
            Stage::TakeLock => Fault::TakeLock,
            Stage::Load => Fault::Read,
            Stage::Change => Fault::Change,
            Stage::Encode => Fault::Encode,
            Stage::WriteTemp => Fault::Write,
            _ => Fault::Replace,
        }
    }

    /// The update holds the lock at this stage.
    pub open spec fn holds_lock(self) -> bool {
        self is Load || self is Change || self is Encode || self is WriteTemp || self is Replace
            || self is Release
    }

    /// The stage after `e`. A failure gives the lock up first where it is held.
    pub open spec fn after(self, e: Event) -> Stage {
        if e is Failed {
            if self.holds_lock() {
                Stage::Release(Outcome::Failed(self.fault()))
            } else {
                Stage::Closed(Outcome::Failed(self.fault()))
            }
        } else {
            match self {
                Stage::MakeDir => Stage::OpenLock,
                Stage::OpenLock => Stage::TakeLock,
                Stage::TakeLock => Stage::Load,
                Stage::Load => Stage::Change,
                Stage::Change => Stage::Encode,
                Stage::Encode => Stage::WriteTemp,
                Stage::WriteTemp => Stage::Replace,
                Stage::Replace => Stage::Release(Outcome::Saved),
                Stage::Release(o) => Stage::Closed(o),
                Stage::Closed(o) => Stage::Closed(o),
            }
        }
    }

    /// `a` is what is asked for at this stage, with what `e` handed over: the loaded
    /// state is the one to change, the changed state the one to encode, and the encoded
    /// text the one to write.
    pub open spec fn asks(self, e: Event, a: Action) -> bool {
        match self {
            Stage::MakeDir => a is MakeDir,
            Stage::OpenLock => a is OpenLock,
            Stage::TakeLock => a is TakeLock,
            Stage::Load => a is Load,
            Stage::Change => a == Action::Change(e->Loaded_0),
            Stage::Encode => a == Action::Encode(e->Changed_0),
            Stage::WriteTemp => a == Action::WriteTemp(e->Encoded_0),
            Stage::Replace => a is Replace,
            Stage::Release(_) => a is Release,
            Stage::Closed(o) => a == Action::Finish(o),
        }
    }

    /// Whether `e` reports on what is asked for at this stage.
    pub fn is_answered_by(&self, e: &Event) -> (r: bool)
        ensures
            r == self.accepts(*e),
            *e is Failed ==> r == !(*self is MakeDir || *self is Release || *self is Closed),
            r && !(*e is Failed) ==> (*e is DirTried <==> *self is MakeDir),
            r && *e is Loaded ==> *self is Load,
            r && *e is Changed ==> *self is Change,
            r && *e is Encoded ==> *self is Encode,
    {
        match (self, e) {
            (Stage::MakeDir, Event::DirTried) => true,
            (Stage::OpenLock, Event::LockOpened) => true,
            (Stage::TakeLock, Event::LockTaken) => true,
            (Stage::Load, Event::Loaded(_)) => true,
            (Stage::Change, Event::Changed(_)) => true,
            (Stage::Encode, Event::Encoded(_)) => true,
            (Stage::WriteTemp, Event::TempWritten) => true,
            (Stage::Replace, Event::Replaced) => true,
            (Stage::Release(_), Event::Released) => true,
            (Stage::MakeDir, _) | (Stage::Release(_), _) | (Stage::Closed(_), _) => false,
            (_, Event::Failed) => true,
            _ => false,
        }
    }
}

/// The first stage of an update and what it asks for.
pub fn begin() -> (r: (Stage, Action))
    ensures
        r.0 is MakeDir,
        r.1 is MakeDir,
{
    (Stage::MakeDir, Action::MakeDir)
}

/// The stage after the caller has reported `event`, and what is to be done next.
pub fn step(stage: Stage, event: Event) -> (r: (Stage, Action))
    requires
        stage.accepts(event),
    ensures
        r.0 == stage.after(event),
        r.0.asks(event, r.1),
        event matches Event::Loaded(s) ==> r == (Stage::Change, Action::Change(s)),
        event matches Event::Changed(s) ==> r == (Stage::Encode, Action::Encode(s)),
        event matches Event::Encoded(t) ==> r == (Stage::WriteTemp, Action::WriteTemp(t)),
        event is TempWritten ==> r == (Stage::Replace, Action::Replace),
        event is Replaced ==> r == (Stage::Release(Outcome::Saved), Action::Release),
        stage matches Stage::Release(o) ==> r == (Stage::Closed(o), Action::Finish(o)),
{
    match (stage, event) {
        (Stage::MakeDir, _) => (Stage::OpenLock, Action::OpenLock),
        (Stage::OpenLock, Event::LockOpened) => (Stage::TakeLock, Action::TakeLock),
        (Stage::OpenLock, _) => closed(Outcome::Failed(Fault::OpenLock)),
        (Stage::TakeLock, Event::LockTaken) => (Stage::Load, Action::Load),
        (Stage::TakeLock, _) => closed(Outcome::Failed(Fault::TakeLock)),
        (Stage::Load, Event::Loaded(s)) => (Stage::Change, Action::Change(s)),
        (Stage::Load, _) => release(Outcome::Failed(Fault::Read)),
        (Stage::Change, Event::Changed(s)) => (Stage::Encode, Action::Encode(s)),
        (Stage::Change, _) => release(Outcome::Failed(Fault::Change)),
        (Stage::Encode, Event::Encoded(t)) => (Stage::WriteTemp, Action::WriteTemp(t)),
        (Stage::Encode, _) => release(Outcome::Failed(Fault::Encode)),
        (Stage::WriteTemp, Event::TempWritten) => (Stage::Replace, Action::Replace),
        (Stage::WriteTemp, _) => release(Outcome::Failed(Fault::Write)),
        (Stage::Replace, Event::Replaced) => release(Outcome::Saved),
        (Stage::Replace, _) => release(Outcome::Failed(Fault::Replace)),
        (Stage::Release(o), _) => closed(o),
        (Stage::Closed(o), _) => closed(o),
    }
}

/// What an update is asked to do at each point of its way, and what it is answered with.
/// It can fail wherever it asks for something that can, and nowhere else; and a report
/// fits only the request that it answers.
pub proof fn law_reports_answer_requests(stage: Stage, e: Event)
    ensures
        stage.accepts(e) ==> {
            &&& e is DirTried <==> stage is MakeDir
            &&& e is LockOpened ==> stage is OpenLock
            &&& e is LockTaken ==> stage is TakeLock
            &&& e is Loaded ==> stage is Load
            &&& e is Changed ==> stage is Change
            &&& e is Encoded ==> stage is Encode
            &&& e is TempWritten ==> stage is WriteTemp
            &&& e is Replaced ==> stage is Replace
            &&& e is Released <==> stage is Release
        },
        e is Failed ==> (stage.accepts(e) <==> !(stage is MakeDir || stage is Release
            || stage is Closed)),
        Stage::MakeDir.accepts(Event::DirTried),
        Stage::OpenLock.accepts(Event::LockOpened),
        Stage::TakeLock.accepts(Event::LockTaken),
        e is Loaded ==> Stage::Load.accepts(e),
        e is Changed ==> Stage::Change.accepts(e),
        e is Encoded ==> Stage::Encode.accepts(e),
        Stage::WriteTemp.accepts(Event::TempWritten),
        Stage::Replace.accepts(Event::Replaced),
        stage is Release ==> stage.accepts(Event::Released),
{
}

/// An update that nothing fails goes its whole way and ends saved: it makes the
/// directory, opens and takes the lock, loads, changes, encodes, writes the temporary
/// file, replaces the state file by it, and gives the lock up only then. Each request
/// carries what the report before it brought: the loaded state is the one to change, the
/// changed state the one to encode, the encoded text the one to write.
pub proof fn law_update_runs_through(
    loaded: State,
    changed: State,
    text: String,
    a: Seq<Action>,
)
    requires
        a.len() == 9,
        Stage::MakeDir.after(Event::DirTried).asks(Event::DirTried, a[0]),
        Stage::OpenLock.after(Event::LockOpened).asks(Event::LockOpened, a[1]),
        Stage::TakeLock.after(Event::LockTaken).asks(Event::LockTaken, a[2]),
        Stage::Load.after(Event::Loaded(loaded)).asks(Event::Loaded(loaded), a[3]),
        Stage::Change.after(Event::Changed(changed)).asks(Event::Changed(changed), a[4]),
        Stage::Encode.after(Event::Encoded(text)).asks(Event::Encoded(text), a[5]),
        Stage::WriteTemp.after(Event::TempWritten).asks(Event::TempWritten, a[6]),
        Stage::Replace.after(Event::Replaced).asks(Event::Replaced, a[7]),
        Stage::Release(Outcome::Saved).after(Event::Released).asks(Event::Released, a[8]),
    ensures
        Stage::MakeDir.after(Event::DirTried) is OpenLock && a[0] is OpenLock,
        Stage::OpenLock.after(Event::LockOpened) is TakeLock && a[1] is TakeLock,
        Stage::TakeLock.after(Event::LockTaken) is Load && a[2] is Load,
        Stage::Load.after(Event::Loaded(loaded)) is Change && a[3] == Action::Change(loaded),
        Stage::Change.after(Event::Changed(changed)) is Encode && a[4] == Action::Encode(
            changed,
        ),
        Stage::Encode.after(Event::Encoded(text)) is WriteTemp && a[5] == Action::WriteTemp(
            text,
        ),
        Stage::WriteTemp.after(Event::TempWritten) is Replace && a[6] is Replace,
        Stage::Replace.after(Event::Replaced) == Stage::Release(Outcome::Saved)
            && a[7] is Release,
        Stage::Release(Outcome::Saved).after(Event::Released) == Stage::Closed(Outcome::Saved)
            && a[8] == Action::Finish(Outcome::Saved),
{
}

/// Between the load and the encoding an update does to the commits what its change does,
/// and nothing else: whatever was loaded, the state to encode has exactly the commits
/// that the change makes of the loaded ones, and the text to write is the encoded one.
pub proof fn law_change_is_made_to_the_loaded_commits(
    change: spec_fn(Map<Seq<char>, crate::pending::PendingCommit>) -> Map<
        Seq<char>,
        crate::pending::PendingCommit,
    >,
    loaded: State,
    to_change: Action,
    changed: State,
    to_encode: Action,
    text: String,
    to_write: Action,
)
    requires
        Stage::Load.after(Event::Loaded(loaded)).asks(Event::Loaded(loaded), to_change),
        to_change matches Action::Change(s) ==> changed@ == change(s@),
        Stage::Change.after(Event::Changed(changed)).asks(Event::Changed(changed), to_encode),
        Stage::Encode.after(Event::Encoded(text)).asks(Event::Encoded(text), to_write),
    ensures
        to_change matches Action::Change(s) && s@ == loaded@,
        to_encode matches Action::Encode(s) && s@ == change(loaded@),
        to_write matches Action::WriteTemp(t) && t@ == text@,
{
}

/// An update that fails says where it failed. It gives the lock up first where it holds
/// it, which it does from taking it on, and ends with the same fault.
pub proof fn law_failure_names_its_stage(stage: Stage, a: Action)
    requires
        stage.accepts(Event::Failed),
        stage.after(Event::Failed).asks(Event::Failed, a),
    ensures
        ({
            let fault = match stage {
                Stage::OpenLock => Fault::OpenLock,
                Stage::TakeLock => Fault::TakeLock,
                Stage::Load => Fault::Read,
                Stage::Change => Fault::Change,
                Stage::Encode => Fault::Encode,
                Stage::WriteTemp => Fault::Write,
                _ => Fault::Replace,
            };
            let outcome = Outcome::Failed(fault);
            if stage is OpenLock || stage is TakeLock {
                stage.after(Event::Failed) == Stage::Closed(outcome) && a == Action::Finish(
                    outcome,
                )
            } else {
                &&& stage.after(Event::Failed) == Stage::Release(outcome)
                &&& a is Release
                &&& Stage::Release(outcome).after(Event::Released) == Stage::Closed(outcome)
            }
        }),
{
}

fn release(o: Outcome) -> (r: (Stage, Action))
    ensures
        r == (Stage::Release(o), Action::Release),
{
    (Stage::Release(o), Action::Release)
}

fn closed(o: Outcome) -> (r: (Stage, Action))
    ensures
        r == (Stage::Closed(o), Action::Finish(o)),
{
    (Stage::Closed(o), Action::Finish(o))
}

/// What a failure is reported with, besides its cause.
pub open spec fn context_text(fault: Fault, paths: StatePaths) -> Option<Seq<char>> {
    match fault {
        Fault::OpenLock => Some("open lock file "@ + paths.lock@),
        Fault::TakeLock => Some("flock "@ + paths.lock@),
        Fault::Read => Some("read "@ + paths.state@),
        _ => None,
    }
}

/// What a failure is reported with, besides its cause: the file that it is about.
pub fn fault_context(fault: Fault, paths: &StatePaths) -> (r: Option<String>)
    ensures
        crate::paths::opt_view(r) == context_text(fault, *paths),
        fault is OpenLock ==> (r matches Some(t) && t@ == "open lock file "@ + paths.lock@),
        fault is TakeLock ==> (r matches Some(t) && t@ == "flock "@ + paths.lock@),
        fault is Read ==> (r matches Some(t) && t@ == "read "@ + paths.state@),
        r is Some <==> fault is OpenLock || fault is TakeLock || fault is Read,
{
    match fault {
        Fault::OpenLock => Some("open lock file ".to_string().concat(paths.lock.as_str())),
        Fault::TakeLock => Some("flock ".to_string().concat(paths.lock.as_str())),
        Fault::Read => Some("read ".to_string().concat(paths.state.as_str())),
        _ => None,
    }
}

} // verus!
