//! Any number of updates of one state file, running at once.
//!
//! The model interleaves the events of the updates in any order, and lets an update
//! disappear at any point, as one does whose change panics or whose process dies. It
//! grants the lock to one update at a time, and frees it when its holder disappears, as
//! an exclusive file lock does. It follows the state file, the temporary file and what
//! each update has been asked to do: an update does what it is asked to do with the very
//! state or text that comes with the request, and what it reports decides the next one.

use vstd::prelude::*;

use crate::pending::PendingCommit;
use crate::update::{Action, Event, Stage};

verus! {

/// The commits of a state, by key.
pub type Commits = Map<Seq<char>, PendingCommit>;

/// What a file holds.
pub enum Doc {
    /// The encoding of these commits.
    Holds(Commits),
    /// Something that does not decode.
    Garbled,
}

/// What can happen to an update.
pub enum Happening {
    /// It reports an event, other than that writing the temporary file failed, and is
    /// asked for an action next.
    Report(Event, Action),
    /// It reports that writing the temporary file failed, and is asked for an action next.
    /// The file may be as it was, or hold anything.
    WriteFailed(Option<Doc>, Action),
    /// It disappears: its change panics, or its process dies. An update that disappears
    /// while it writes the temporary file may leave anything there.
    Gone(Option<Doc>),
}

/// One update under way.
pub struct Update {
    pub stage: Stage,
    /// It has disappeared and reports nothing more.
    pub gone: bool,
    /// What it has been asked to do.
    pub asked: Action,
    /// What it does to the commits; none where it refuses.
    pub change: spec_fn(Commits) -> Option<Commits>,
}

impl Update {
    /// It is past taking the lock and has neither given it up nor disappeared.
    pub open spec fn in_critical_section(self) -> bool {
        !self.gone && self.stage.holds_lock()
    }

    /// It has ended, by success, by failure or by disappearing.
    pub open spec fn has_ended(self) -> bool {
        self.gone || self.stage is Closed
    }
}

/// The updates, the files and the lock.
pub struct World {
    pub updates: Seq<Update>,
    pub state_path: Seq<char>,
    pub temp_path: Seq<char>,
    /// What a file holds that consists of a text.
    pub decode: spec_fn(Seq<char>) -> Doc,
    pub files: Map<Seq<char>, Doc>,
    /// Which update holds the lock.
    pub holder: Option<int>,
    /// The updates that have replaced the state file, in the order in which they did.
    pub saved: Seq<int>,
}

impl World {
    /// Nothing has begun.
    pub open spec fn fresh(self) -> bool {
        &&& self.state_path != self.temp_path
        &&& self.holder is None
        &&& self.saved.len() == 0
        &&& forall|i: int|
            0 <= i < self.updates.len() ==> {
                &&& (#[trigger] self.updates[i]).stage is MakeDir
                &&& self.updates[i].asked is MakeDir
                &&& !self.updates[i].gone
            }
    }

    /// The commits that a load gives now: none where there is no file or it does not
    /// decode.
    pub open spec fn content(self) -> Commits {
        if self.files.contains_key(self.state_path) {
            match self.files[self.state_path] {
                Doc::Holds(m) => m,
                Doc::Garbled => Map::empty(),
            }
        } else {
            Map::empty()
        }
    }

    /// Update `i` can report `e` and be asked for `a` next. The lock is granted only while
    /// it is free; a load gives what the file holds; a change is made to the state that the
    /// update was asked to change, gives what the update's change says, and fails only where
    /// that refuses; a text stands for the state that the update was asked to encode.
    pub open spec fn allows_report(self, i: int, e: Event, a: Action) -> bool {
        &&& 0 <= i < self.updates.len()
        &&& !self.updates[i].gone
        &&& self.updates[i].stage.accepts(e)
        &&& self.updates[i].stage.after(e).asks(e, a)
        &&& e is LockTaken ==> self.holder is None
        &&& e matches Event::Loaded(s) ==> s@ == self.content()
        &&& e matches Event::Changed(s) ==> {
            &&& self.updates[i].asked matches Action::Change(given)
            &&& (self.updates[i].change)(given@) == Some(s@)
        }
        &&& e matches Event::Encoded(t) ==> {
            &&& self.updates[i].asked matches Action::Encode(given)
            &&& (self.decode)(t@) == Doc::Holds(given@)
        }
        &&& e is Failed && self.updates[i].stage is Change ==> {
            &&& self.updates[i].asked matches Action::Change(given)
            &&& (self.updates[i].change)(given@) is None
        }
    }

    /// `h` can happen to update `i`.
    pub open spec fn allows(self, i: int, h: Happening) -> bool {
        match h {
            Happening::Report(e, a) => {
                &&& self.allows_report(i, e, a)
                &&& e is Failed ==> !(self.updates[i].stage is WriteTemp)
            },
            Happening::WriteFailed(_, a) => {
                &&& self.allows_report(i, Event::Failed, a)
                &&& self.updates[i].stage is WriteTemp
            },
            Happening::Gone(left) => {
                &&& 0 <= i < self.updates.len()
                &&& !self.updates[i].gone
                &&& left is Some ==> self.updates[i].stage is WriteTemp
            },
        }
    }

    /// The files after `e` of update `i`: a write puts the text that it was asked to write
    /// into the temporary file, and the replacement moves the temporary file onto the state
    /// file.
    pub open spec fn files_after(self, i: int, e: Event) -> Map<Seq<char>, Doc> {
        if e is TempWritten {
            match self.updates[i].asked {
                Action::WriteTemp(t) => self.files.insert(self.temp_path, (self.decode)(t@)),
                _ => self.files,
            }
        } else if e is Replaced {
            self.files.insert(self.state_path, self.files[self.temp_path]).remove(self.temp_path)
        } else {
            self.files
        }
    }

    /// The world after `e` of update `i`, which is asked for `a` next.
    pub open spec fn after_report(self, i: int, e: Event, a: Action) -> World {
        let u = self.updates[i];
        World {
            updates: self.updates.update(
                i,
                Update { stage: u.stage.after(e), gone: u.gone, asked: a, change: u.change },
            ),
            state_path: self.state_path,
            temp_path: self.temp_path,
            decode: self.decode,
            files: self.files_after(i, e),
            holder: if e is LockTaken {
                Some(i)
            } else if e is Released {
                None
            } else {
                self.holder
            },
            saved: if e is Replaced {
                self.saved.push(i)
            } else {
                self.saved
            },
        }
    }

    /// The same world with `left` in the temporary file; unchanged where nothing is left.
    pub open spec fn with_temp(self, left: Option<Doc>) -> World {
        World {
            updates: self.updates,
            state_path: self.state_path,
            temp_path: self.temp_path,
            decode: self.decode,
            files: match left {
                Some(doc) => self.files.insert(self.temp_path, doc),
                None => self.files,
            },
            holder: self.holder,
            saved: self.saved,
        }
    }

    /// The world after update `i` has disappeared. The lock is free again if it held it.
    pub open spec fn after_loss(self, i: int) -> World {
        let u = self.updates[i];
        World {
            updates: self.updates.update(
                i,
                Update { stage: u.stage, gone: true, asked: u.asked, change: u.change },
            ),
            state_path: self.state_path,
            temp_path: self.temp_path,
            decode: self.decode,
            files: self.files,
            holder: if self.holder == Some(i) {
                None
            } else {
                self.holder
            },
            saved: self.saved,
        }
    }

    /// The world after `h` of update `i`.
    pub open spec fn after(self, i: int, h: Happening) -> World {
        match h {
            Happening::Report(e, a) => self.after_report(i, e, a),
            Happening::WriteFailed(left, a) => self.after_report(i, Event::Failed, a).with_temp(
                left,
            ),
            Happening::Gone(left) => self.after_loss(i).with_temp(left),
        }
    }

    /// Each part of `trace` can happen when its turn comes.
    pub open spec fn admits(self, trace: Seq<(int, Happening)>) -> bool
        decreases trace.len(),
    {
        trace.len() > 0 ==> {
            &&& self.admits(trace.drop_last())
            &&& self.reached(trace.drop_last()).allows(trace.last().0, trace.last().1)
        }
    }

    /// The world after all of `trace`.
    pub open spec fn reached(self, trace: Seq<(int, Happening)>) -> World
        decreases trace.len(),
    {
        if trace.len() == 0 {
            self
        } else {
            self.reached(trace.drop_last()).after(trace.last().0, trace.last().1)
        }
    }

    /// The commits after the changes of the updates in `order`, one after the other;
    /// none where one of them refuses.
    pub open spec fn one_by_one(self, start: Commits, order: Seq<int>) -> Option<Commits>
        decreases order.len(),
    {
        if order.len() == 0 {
            Some(start)
        } else {
            match self.one_by_one(start, order.drop_last()) {
                Some(m) => (self.updates[order.last()].change)(m),
                None => None,
            }
        }
    }

    /// Update `i` has replaced the state file.
    pub open spec fn has_saved(self, i: int) -> bool {
        let s = self.updates[i].stage;
        s == Stage::Release(crate::update::Outcome::Saved) || s == Stage::Closed(
            crate::update::Outcome::Saved,
        )
    }

    /// What holds of every world that a fresh world with content `start` can reach.
    spec fn consistent(self, start: Commits) -> bool {
        &&& self.state_path != self.temp_path
        // The lock is held by the one update that is past taking it, has not yet given it
        // up and has not disappeared.
        &&& forall|i: int|
            0 <= i < self.updates.len() ==> ((#[trigger] self.updates[i]).in_critical_section()
                <==> self.holder == Some(i))
        &&& self.holder matches Some(h) ==> 0 <= h < self.updates.len()
        // What an update is asked to do follows from what the file holds.
        &&& forall|i: int|
            0 <= i < self.updates.len() && !(#[trigger] self.updates[i]).gone ==> {
                let u = self.updates[i];
                &&& u.stage is Change ==> {
                    &&& u.asked matches Action::Change(s)
                    &&& s@ == self.content()
                }
                &&& u.stage is Encode ==> {
                    &&& u.asked matches Action::Encode(s)
                    &&& (u.change)(self.content()) == Some(s@)
                }
                &&& u.stage is WriteTemp ==> {
                    &&& u.asked matches Action::WriteTemp(t)
                    &&& (self.decode)(t@) matches Doc::Holds(m)
                    &&& (u.change)(self.content()) == Some(m)
                }
                &&& u.asked is Change ==> u.stage is Change
                &&& u.asked is Encode ==> u.stage is Encode
                &&& u.asked is WriteTemp ==> u.stage is WriteTemp
                &&& u.stage is Replace ==> {
                    &&& self.files.contains_key(self.temp_path)
                    &&& self.files[self.temp_path] matches Doc::Holds(m)
                    &&& (u.change)(self.content()) == Some(m)
                }
            }
        // The file holds the work of the updates that saved, each once.
        &&& self.one_by_one(start, self.saved) == Some(self.content())
        &&& self.saved.no_duplicates()
        &&& forall|i: int| #[trigger]
            self.saved.contains(i) <==> 0 <= i < self.updates.len() && self.has_saved(i)
    }
}

/// The order of changes does not depend on how far the updates have come.
proof fn lemma_one_by_one_same_changes(w1: World, w2: World, start: Commits, order: Seq<int>)
    requires
        w1.updates.len() == w2.updates.len(),
        forall|i: int|
            0 <= i < w1.updates.len() ==> (#[trigger] w1.updates[i]).change
                == w2.updates[i].change,
        forall|k: int| 0 <= k < order.len() ==> 0 <= #[trigger] order[k] < w1.updates.len(),
    ensures
        w1.one_by_one(start, order) == w2.one_by_one(start, order),
    decreases order.len(),
{
    if order.len() > 0 {
        let init = order.drop_last();
        assert forall|k: int| 0 <= k < init.len() implies 0 <= #[trigger] init[k]
            < w1.updates.len() by {
            assert(init[k] == order[k]);
        }
        lemma_one_by_one_same_changes(w1, w2, start, init);
        assert(0 <= order[order.len() - 1] < w1.updates.len());
        assert(w1.updates[order.last()].change == w2.updates[order.last()].change);
    }
}

/// What an update leaves in the temporary file that no update is about to move does not
/// matter.
proof fn lemma_temp_consistent(w: World, start: Commits, left: Option<Doc>)
    requires
        w.consistent(start),
        left is Some ==> forall|i: int|
            0 <= i < w.updates.len() ==> !((#[trigger] w.updates[i]).in_critical_section()
                && w.updates[i].stage is Replace),
    ensures
        w.with_temp(left).consistent(start),
        w.with_temp(left).content() == w.content(),
{
    let v = w.with_temp(left);
    assert forall|k: int| 0 <= k < w.saved.len() implies 0 <= #[trigger] w.saved[k]
        < w.updates.len() by {
        assert(w.saved.contains(w.saved[k]));
    }
    lemma_one_by_one_same_changes(w, v, start, w.saved);
    assert(v.content() == w.content());
    assert forall|k: int| #[trigger] v.saved.contains(k) <==> 0 <= k < v.updates.len()
        && v.has_saved(k) by {
        assert(w.saved.contains(k) <==> 0 <= k < w.updates.len() && w.has_saved(k));
    }
}

proof fn lemma_loss_consistent(w: World, start: Commits, i: int)
    requires
        w.consistent(start),
        0 <= i < w.updates.len(),
        !w.updates[i].gone,
    ensures
        w.after_loss(i).consistent(start),
        w.after_loss(i).content() == w.content(),
{
    let v = w.after_loss(i);
    assert(v.updates.len() == w.updates.len());
    assert(forall|j: int| 0 <= j < w.updates.len() && j != i ==> v.updates[j] == w.updates[j]);
    assert forall|k: int| 0 <= k < w.saved.len() implies 0 <= #[trigger] w.saved[k]
        < w.updates.len() by {
        assert(w.saved.contains(w.saved[k]));
    }
    lemma_one_by_one_same_changes(w, v, start, w.saved);
    assert(v.content() == w.content());
    assert forall|k: int| #[trigger] v.saved.contains(k) <==> 0 <= k < v.updates.len()
        && v.has_saved(k) by {
        assert(w.saved.contains(k) <==> 0 <= k < w.updates.len() && w.has_saved(k));
    }
}

proof fn lemma_report_consistent(w: World, start: Commits, i: int, e: Event, a: Action)
    requires
        w.consistent(start),
        w.allows_report(i, e, a),
    ensures
        w.after_report(i, e, a).consistent(start),
{
    let v = w.after_report(i, e, a);
    let u = w.updates[i];
    assert(v.updates.len() == w.updates.len());
    assert(forall|j: int| 0 <= j < w.updates.len() && j != i ==> v.updates[j] == w.updates[j]);
    assert forall|k: int| 0 <= k < w.saved.len() implies 0 <= #[trigger] w.saved[k]
        < w.updates.len() by {
        assert(w.saved.contains(w.saved[k]));
    }
    lemma_one_by_one_same_changes(w, v, start, w.saved);
    if e is Replaced {
        assert((u.change)(w.content()) == Some(v.content()));
        assert(v.saved.drop_last() =~= w.saved);
        assert(!w.has_saved(i));
        assert(!w.saved.contains(i));
        assert(v.updates[i].change == u.change);
        assert(v.one_by_one(start, v.saved) == Some(v.content()));
        assert forall|k: int| #[trigger] v.saved.contains(k) <==> 0 <= k < v.updates.len()
            && v.has_saved(k) by {
            if v.saved.contains(k) {
                let p = choose|p: int| 0 <= p < v.saved.len() && v.saved[p] == k;
                if p < w.saved.len() {
                    assert(w.saved[p] == k);
                    assert(w.saved.contains(k));
                }
            }
            if 0 <= k < v.updates.len() && v.has_saved(k) {
                if k == i {
                    assert(v.saved[w.saved.len() as int] == i);
                } else {
                    assert(w.has_saved(k));
                    assert(w.saved.contains(k));
                    let p = choose|p: int| 0 <= p < w.saved.len() && w.saved[p] == k;
                    assert(v.saved[p] == k);
                }
            }
        }
    } else {
        assert(v.content() == w.content());
        assert forall|k: int| #[trigger] v.saved.contains(k) <==> 0 <= k < v.updates.len()
            && v.has_saved(k) by {
            assert(w.saved.contains(k) <==> 0 <= k < w.updates.len() && w.has_saved(k));
        }
    }
}

proof fn lemma_fresh_consistent(w: World)
    requires
        w.fresh(),
    ensures
        w.consistent(w.content()),
{
}

proof fn lemma_reached_consistent(w: World, trace: Seq<(int, Happening)>)
    requires
        w.fresh(),
        w.admits(trace),
    ensures
        w.reached(trace).consistent(w.content()),
    decreases trace.len(),
{
    if trace.len() == 0 {
        lemma_fresh_consistent(w);
    } else {
        lemma_reached_consistent(w, trace.drop_last());
        let v = w.reached(trace.drop_last());
        match trace.last().1 {
            Happening::Report(e, a) => {
                lemma_report_consistent(v, w.content(), trace.last().0, e, a);
            },
            Happening::WriteFailed(left, a) => {
                let i = trace.last().0;
                lemma_report_consistent(v, w.content(), i, Event::Failed, a);
                assert(v.updates[i].in_critical_section());
                lemma_temp_consistent(v.after_report(i, Event::Failed, a), w.content(), left);
            },
            Happening::Gone(left) => {
                let i = trace.last().0;
                lemma_loss_consistent(v, w.content(), i);
                if left is Some {
                    assert(v.updates[i].in_critical_section());
                }
                lemma_temp_consistent(v.after_loss(i), w.content(), left);
            },
        }
    }
}

/// Two or more updates at once take place one after the other. Whatever the
/// interleaving, and whichever of them disappear on the way, the state file holds what
/// the changes of the updates that saved make of the first content, one after the other,
/// each of them once and none left out.
pub proof fn law_updates_serialize(w: World, trace: Seq<(int, Happening)>)
    requires
        w.fresh(),
        w.admits(trace),
    ensures
        ({
            let v = w.reached(trace);
            &&& v.one_by_one(w.content(), v.saved) == Some(v.content())
            &&& v.saved.no_duplicates()
            &&& forall|i: int| #[trigger]
                v.saved.contains(i) <==> 0 <= i < v.updates.len() && v.has_saved(i)
        }),
{
    lemma_reached_consistent(w, trace);
}

/// Nothing is lost between the load and the save of one update, whatever the others do
/// meanwhile. The state that an update is asked to change has the commits that the file
/// holds; the state that it is asked to encode has what its change makes of them; and the
/// text that it is asked to write stands for just that.
pub proof fn law_update_carries_the_commits(w: World, trace: Seq<(int, Happening)>, i: int)
    requires
        w.fresh(),
        w.admits(trace),
        0 <= i < w.updates.len(),
        !w.reached(trace).updates[i].gone,
    ensures
        ({
            let v = w.reached(trace);
            let change = w.updates[i].change;
            &&& v.updates[i].asked matches Action::Change(s) ==> s@ == v.content()
            &&& v.updates[i].asked matches Action::Encode(s) ==> change(v.content()) == Some(s@)
            &&& v.updates[i].asked matches Action::WriteTemp(t) ==> {
                &&& (w.decode)(t@) matches Doc::Holds(m)
                &&& change(v.content()) == Some(m)
            }
        }),
{
    lemma_reached_consistent(w, trace);
    lemma_reached_same_changes(w, trace);
}

/// At most one update is between taking and giving up the lock: whoever loads, changes
/// or saves is the only one that does.
pub proof fn law_one_holder_at_a_time(w: World, trace: Seq<(int, Happening)>, i: int, j: int)
    requires
        w.fresh(),
        w.admits(trace),
        0 <= i < w.updates.len(),
        0 <= j < w.updates.len(),
        w.reached(trace).updates[i].in_critical_section(),
        w.reached(trace).updates[j].in_critical_section(),
    ensures
        i == j,
        w.reached(trace).holder == Some(i),
{
    lemma_reached_consistent(w, trace);
    lemma_reached_same_changes(w, trace);
}

/// No lock outlives its update. An update that has ended, by success, by failure or by
/// disappearing, does not hold the lock; and where no update is still between taking
/// and giving it up, an update that waits for the lock can take it.
pub proof fn law_no_stale_lock(w: World, trace: Seq<(int, Happening)>, j: int)
    requires
        w.fresh(),
        w.admits(trace),
    ensures
        ({
            let v = w.reached(trace);
            &&& forall|i: int|
                0 <= i < v.updates.len() && (#[trigger] v.updates[i]).has_ended() ==> v.holder
                    != Some(i)
            &&& {
                &&& 0 <= j < v.updates.len()
                &&& !v.updates[j].gone
                &&& v.updates[j].stage is TakeLock
                &&& forall|i: int|
                    0 <= i < v.updates.len() ==> !(#[trigger] v.updates[i]).in_critical_section()
            } ==> v.allows(j, Happening::Report(Event::LockTaken, Action::Load))
        }),
{
    lemma_reached_consistent(w, trace);
    let v = w.reached(trace);
    if v.holder is Some {
        assert(v.updates[v.holder->0].in_critical_section());
    }
}

/// The state file is replaced as a whole. Whatever happens to any update, also that it
/// fails or disappears, the file stays as it was, and stays absent where it was absent,
/// except that the replacement leaves there exactly what the update's change made of the
/// content; so whoever reads it, and whenever an update stops, finds a complete state,
/// old or new.
pub proof fn law_state_file_old_or_new(
    w: World,
    trace: Seq<(int, Happening)>,
    i: int,
    h: Happening,
)
    requires
        w.fresh(),
        w.admits(trace),
        w.reached(trace).allows(i, h),
    ensures
        ({
            let before = w.reached(trace);
            let after = before.after(i, h);
            let path = w.state_path;
            if h matches Happening::Report(e, _) && e is Replaced {
                &&& (before.updates[i].change)(before.content()) == Some(after.content())
                &&& after.files.contains_key(path)
                &&& after.files[path] == Doc::Holds(after.content())
            } else {
                &&& after.content() == before.content()
                &&& after.files.contains_key(path) == before.files.contains_key(path)
                &&& before.files.contains_key(path) ==> after.files[path] == before.files[path]
            }
        }),
{
    lemma_reached_consistent(w, trace);
    lemma_reached_same_changes(w, trace);
}

/// An update that ends without saving has changed nothing: it is not among those
/// whose work the state file holds.
pub proof fn law_failed_update_leaves_no_trace(w: World, trace: Seq<(int, Happening)>, i: int)
    requires
        w.fresh(),
        w.admits(trace),
        0 <= i < w.updates.len(),
        !w.reached(trace).has_saved(i),
    ensures
        !w.reached(trace).saved.contains(i),
{
    lemma_reached_consistent(w, trace);
}

/// Update `i` of `w` puts `c[i]`.
pub open spec fn each_puts(w: World, c: Seq<PendingCommit>) -> bool {
    &&& c.len() == w.updates.len()
    &&& forall|i: int, m: Commits|
        0 <= i < c.len() ==> #[trigger] (w.updates[i].change)(m) == Some(
            m.insert(crate::state::key_text(c[i].epoch_id, c[i].word_id), c[i]),
        )
}

/// No two of the commits are to one word in one epoch.
pub open spec fn different_words(c: Seq<PendingCommit>) -> bool {
    forall|i: int, j: int|
        0 <= i < j < c.len() ==> (#[trigger] c[i]).epoch_id != (#[trigger] c[j]).epoch_id
            || c[i].word_id != c[j].word_id
}

/// One of the commits is to the word in the epoch that `k` is the key of.
pub open spec fn named(c: Seq<PendingCommit>, k: Seq<char>) -> bool {
    exists|i: int|
        0 <= i < c.len() && k == crate::state::key_text(
            (#[trigger] c[i]).epoch_id,
            c[i].word_id,
        )
}

proof fn lemma_puts_one_by_one(w: World, c: Seq<PendingCommit>, start: Commits, order: Seq<int>)
    requires
        each_puts(w, c),
        different_words(c),
        forall|k: int| 0 <= k < order.len() ==> 0 <= #[trigger] order[k] < c.len(),
    ensures
        w.one_by_one(start, order) matches Some(m) && {
            &&& forall|i: int| #[trigger]
                order.contains(i) ==> {
                    let k = crate::state::key_text(c[i].epoch_id, c[i].word_id);
                    m.contains_key(k) && m[k] == c[i]
                }
            &&& forall|k: Seq<char>| #[trigger] start.contains_key(k) ==> m.contains_key(k)
            &&& forall|k: Seq<char>|
                !named(c, k) ==> (#[trigger] m.contains_key(k) <==> start.contains_key(k))
                    && m[k] == start[k]
        },
    decreases order.len(),
{
    if order.len() > 0 {
        let init = order.drop_last();
        let last = order.last();
        assert forall|k: int| 0 <= k < init.len() implies 0 <= #[trigger] init[k] < c.len() by {
            assert(init[k] == order[k]);
        }
        assert(0 <= order[order.len() - 1] < c.len());
        lemma_puts_one_by_one(w, c, start, init);
        let before = w.one_by_one(start, init)->0;
        let m = w.one_by_one(start, order)->0;
        assert((w.updates[last].change)(before) is Some);
        assert forall|i: int| #[trigger] order.contains(i) implies {
            let k = crate::state::key_text(c[i].epoch_id, c[i].word_id);
            m.contains_key(k) && m[k] == c[i]
        } by {
            let p = choose|p: int| 0 <= p < order.len() && order[p] == i;
            if i != last {
                assert(init[p] == i);
                assert(init.contains(i));
                if crate::state::key_text(c[i].epoch_id, c[i].word_id) == crate::state::key_text(
                    c[last].epoch_id,
                    c[last].word_id,
                ) {
                    crate::state::law_key_injective(
                        c[i].epoch_id,
                        c[i].word_id,
                        c[last].epoch_id,
                        c[last].word_id,
                    );
                    if i < last {
                        assert(c[i].epoch_id != c[last].epoch_id || c[i].word_id
                            != c[last].word_id);
                    } else {
                        assert(c[last].epoch_id != c[i].epoch_id || c[last].word_id
                            != c[i].word_id);
                    }
                }
            }
        }
    }
}

/// No commit is lost. Where each update puts a commit and no two of them are to one
/// word in one epoch, the state file holds the commit of every update that has saved,
/// whatever the interleaving and whichever of the others disappear; it still has every
/// key that it began with; and under the keys that no commit names nothing has changed.
pub proof fn law_no_commit_is_lost(w: World, c: Seq<PendingCommit>, trace: Seq<(int, Happening)>)
    requires
        w.fresh(),
        w.admits(trace),
        each_puts(w, c),
        different_words(c),
    ensures
        ({
            let v = w.reached(trace);
            &&& forall|i: int|
                #![trigger v.has_saved(i)]
                0 <= i < c.len() && v.has_saved(i) ==> {
                    let k = crate::state::key_text(c[i].epoch_id, c[i].word_id);
                    v.content().contains_key(k) && v.content()[k] == c[i]
                }
            &&& forall|k: Seq<char>| #[trigger]
                w.content().contains_key(k) ==> v.content().contains_key(k)
            &&& forall|k: Seq<char>|
                !named(c, k) ==> {
                    &&& #[trigger] v.content().contains_key(k) <==> w.content().contains_key(k)
                    &&& w.content().contains_key(k) ==> v.content()[k] == w.content()[k]
                }
        }),
{
    lemma_reached_consistent(w, trace);
    lemma_reached_same_changes(w, trace);
    let v = w.reached(trace);
    assert forall|k: int| 0 <= k < v.saved.len() implies 0 <= #[trigger] v.saved[k] < c.len() by {
        assert(v.saved.contains(v.saved[k]));
    }
    lemma_one_by_one_same_changes(w, v, w.content(), v.saved);
    lemma_puts_one_by_one(w, c, w.content(), v.saved);
    assert forall|i: int|
        #![trigger v.has_saved(i)]
        0 <= i < c.len() && v.has_saved(i) implies {
        let k = crate::state::key_text(c[i].epoch_id, c[i].word_id);
        v.content().contains_key(k) && v.content()[k] == c[i]
    } by {
        assert(v.saved.contains(i));
    }
    let m = w.one_by_one(w.content(), v.saved)->0;
    assert(m == v.content());
    assert forall|k: Seq<char>| !named(c, k) implies {
        &&& #[trigger] v.content().contains_key(k) <==> w.content().contains_key(k)
        &&& w.content().contains_key(k) ==> v.content()[k] == w.content()[k]
    } by {
        assert(m.contains_key(k) <==> w.content().contains_key(k));
    }
}

proof fn lemma_reached_same_changes(w: World, trace: Seq<(int, Happening)>)
    requires
        w.admits(trace),
    ensures
        w.reached(trace).state_path == w.state_path,
        w.reached(trace).decode == w.decode,
        w.reached(trace).updates.len() == w.updates.len(),
        forall|i: int|
            0 <= i < w.updates.len() ==> (#[trigger] w.updates[i]).change == w.reached(
                trace,
            ).updates[i].change,
    decreases trace.len(),
{
    if trace.len() > 0 {
        lemma_reached_same_changes(w, trace.drop_last());
    }
}

/// How many events an update still waits for at most.
pub open spec fn events_left(s: Stage) -> nat {
    match s {
        Stage::MakeDir => 9,
        Stage::OpenLock => 8,
        Stage::TakeLock => 7,
        Stage::Load => 6,
        Stage::Change => 5,
        Stage::Encode => 4,
        Stage::WriteTemp => 3,
        Stage::Replace => 2,
        Stage::Release(_) => 1,
        Stage::Closed(_) => 0,
    }
}

/// The state that an update is asked to encode, where it puts the commit `c`: from the
/// commits `m` that were loaded to those that are handed out, `c` stands under its own
/// key, and every other key has the commit that it had, whatever `m` holds.
pub proof fn law_put_keeps_the_other_commits(
    w: World,
    trace: Seq<(int, Happening)>,
    i: int,
    c: PendingCommit,
    key: Seq<char>,
)
    requires
        w.fresh(),
        w.admits(trace),
        0 <= i < w.updates.len(),
        !w.reached(trace).updates[i].gone,
        w.reached(trace).updates[i].asked is Encode,
        forall|m: Commits| #[trigger]
            (w.updates[i].change)(m) == Some(
                m.insert(crate::state::key_text(c.epoch_id, c.word_id), c),
            ),
    ensures
        ({
            let v = w.reached(trace);
            let m = v.content();
            let own = crate::state::key_text(c.epoch_id, c.word_id);
            &&& v.updates[i].asked matches Action::Encode(s)
            &&& s@.contains_key(own) && s@[own] == c
            &&& key != own ==> (s@.contains_key(key) <==> m.contains_key(key))
            &&& key != own && m.contains_key(key) ==> s@[key] == m[key]
        }),
{
    law_update_carries_the_commits(w, trace, i);
    assert((w.updates[i].change)(w.reached(trace).content()) is Some);
}

/// Every report brings an update closer to its end, and an update that held the lock
/// closes only by giving it up.
pub proof fn law_update_ends(s: Stage, e: Event)
    requires
        s.accepts(e),
    ensures
        events_left(s.after(e)) < events_left(s),
        s.holds_lock() && s.after(e) is Closed ==> e is Released,
{
}

} // verus!
