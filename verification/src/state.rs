//! Local state: the commits of an agent that still have to be driven forward.
//!
//! A commit on chain carries only a hash of the answer, the salt and the agent. To
//! reveal it, the plain answer and salt have to be remembered. They are stored per
//! agent address, in a file that the user owns.

use vstd::prelude::*;

use crate::text::decimal_u64;

pub use crate::pending::{CommitStatus, PendingCommit, PendingMap};

verus! {

/// The pending commits of one agent.
#[derive(Debug)]
pub struct State {
    /// Keyed `{epoch_id}:{word_id}`.
    pub pending: PendingMap,
}

impl View for State {
    type V = Map<Seq<char>, PendingCommit>;

    open spec fn view(&self) -> Map<Seq<char>, PendingCommit> {
        self.pending@
    }
}

/// The key of a word in an epoch.
pub open spec fn key_text(epoch_id: u64, word_id: u64) -> Seq<char> {
    crate::text::decimal(epoch_id as nat) + ":"@ + crate::text::decimal(word_id as nat)
}

/// Each commit stands under the key of its own epoch and word.
pub open spec fn well_keyed(m: Map<Seq<char>, PendingCommit>) -> bool {
    forall|k: Seq<char>| #[trigger]
        m.contains_key(k) ==> k == key_text(m[k].epoch_id, m[k].word_id)
}

/// What was found where the state file should be.
pub enum StateSource {
    /// No file is there.
    Missing,
    /// The file is there and cannot be read.
    Unreadable,
    /// The file was read and does not hold a state.
    Garbled,
    /// The file holds this state.
    Stored(State),
}

/// The state file is there and cannot be read.
#[derive(Clone, Copy, Debug, PartialEq, Eq, Structural)]
pub struct ReadFailure;

impl Clone for State {
    fn clone(&self) -> (r: State)
        ensures
            r@ == self@,
    {
        State { pending: self.pending.clone() }
    }
}

impl Default for State {
    fn default() -> (r: State)
        ensures
            r@ == Map::<Seq<char>, PendingCommit>::empty(),
    {
        State { pending: PendingMap::new() }
    }
}

impl State {
    /// The state that a load gives. A missing file and one that does not hold a state
    /// count as the empty state; only a file that cannot be read is an error.
    pub fn load(source: StateSource) -> (r: Result<State, ReadFailure>)
        ensures
            r is Err <==> source is Unreadable,
            source is Missing || source is Garbled ==> r is Ok && r->Ok_0@ == Map::<
                Seq<char>,
                PendingCommit,
            >::empty(),
            source is Stored ==> r == Ok::<State, ReadFailure>(source->Stored_0),
    {
        match source {
            StateSource::Missing => Ok(State::default()),
            StateSource::Unreadable => Err(ReadFailure),
            StateSource::Garbled => Ok(State::default()),
            StateSource::Stored(s) => Ok(s),
        }
    }

    /// The key under which the commit to a word in an epoch is stored.
    pub fn key(epoch_id: u64, word_id: u64) -> (r: String)
        ensures
            r@ == key_text(epoch_id, word_id),
    {
        decimal_u64(epoch_id).concat(":").concat(decimal_u64(word_id).as_str())
    }

    /// Stores a commit, in place of an earlier one to the same word in the same epoch.
    pub fn put(&mut self, c: PendingCommit)
        ensures
            final(self)@ == old(self)@.insert(key_text(c.epoch_id, c.word_id), c),
    {
        self.pending.insert(Self::key(c.epoch_id, c.word_id), c);
    }

    /// The commit to a word in an epoch.
    pub fn get(&self, epoch_id: u64, word_id: u64) -> (r: Option<&PendingCommit>)
        ensures
            r is Some <==> self@.contains_key(key_text(epoch_id, word_id)),
            r is Some ==> *r->0 == self@[key_text(epoch_id, word_id)],
    {
        self.pending.get(Self::key(epoch_id, word_id).as_str())
    }

    /// The commit to a word in an epoch, for changing it in place. Nothing else in the
    /// state changes with it.
    pub fn get_mut(&mut self, epoch_id: u64, word_id: u64) -> (r: Option<&mut PendingCommit>)
        ensures
            r is Some <==> old(self)@.contains_key(key_text(epoch_id, word_id)),
            r is None ==> *final(self) == *old(self),
            r is Some ==> *r->0 == old(self)@[key_text(epoch_id, word_id)] && final(self)@
                == old(self)@.insert(key_text(epoch_id, word_id), *final(r->0)),
    {
        let key: String = Self::key(epoch_id, word_id);
        self.pending.get_mut(key.as_str())
    }
}

/// No two words share a key: the epoch and the word can be read off it.
pub proof fn law_key_injective(e1: u64, w1: u64, e2: u64, w2: u64)
    requires
        key_text(e1, w1) == key_text(e2, w2),
    ensures
        e1 == e2,
        w1 == w2,
{
    reveal_strlit(":");
    let (a, b) = (crate::text::decimal(e1 as nat), crate::text::decimal(w1 as nat));
    let (c, d) = (crate::text::decimal(e2 as nat), crate::text::decimal(w2 as nat));
    crate::text::lemma_decimal_reads_back(e1 as nat);
    crate::text::lemma_decimal_reads_back(w1 as nat);
    crate::text::lemma_decimal_reads_back(e2 as nat);
    crate::text::lemma_decimal_reads_back(w2 as nat);
    let k1 = a + ":"@ + b;
    let k2 = c + ":"@ + d;
    assert(k1[a.len() as int] == ':');
    assert(k2[c.len() as int] == ':');
    if a.len() < c.len() {
        assert(k2[a.len() as int] == c[a.len() as int]);
    }
    if c.len() < a.len() {
        assert(k1[c.len() as int] == a[c.len() as int]);
    }
    assert(a =~= k1.take(a.len() as int));
    assert(c =~= k2.take(c.len() as int));
    assert(b =~= k1.skip(a.len() as int + 1));
    assert(d =~= k2.skip(c.len() as int + 1));
}

/// What a key looks like: the number of the epoch, a colon, the number of the word, each
/// number in decimal and without leading zeros.
pub proof fn law_key_reads_back(epoch_id: u64, word_id: u64)
    ensures
        exists|at: int|
            #![trigger key_text(epoch_id, word_id)[at]]
            {
                let k = key_text(epoch_id, word_id);
                &&& 0 < at < k.len() - 1
                &&& k[at] == ':'
                &&& crate::text::all_digits(k.take(at))
                &&& crate::text::numeral_value(k.take(at)) == epoch_id
                &&& at > 1 ==> k[0] != '0'
                &&& crate::text::all_digits(k.skip(at + 1))
                &&& crate::text::numeral_value(k.skip(at + 1)) == word_id
                &&& at + 2 < k.len() ==> k[at + 1] != '0'
            },
{
    reveal_strlit(":");
    let (a, b) = (crate::text::decimal(epoch_id as nat), crate::text::decimal(word_id as nat));
    crate::text::lemma_decimal_reads_back(epoch_id as nat);
    crate::text::lemma_decimal_reads_back(word_id as nat);
    let k = key_text(epoch_id, word_id);
    let at = a.len() as int;
    assert(k.take(at) =~= a);
    assert(k.skip(at + 1) =~= b);
    assert(k[0] == a[0]);
    assert(k[at + 1] == b[0]);
    assert(k[at] == ':');
}

/// What is put is what is got back, and a put of another word changes nothing of this
/// one.
pub proof fn law_get_after_put(
    m: Map<Seq<char>, PendingCommit>,
    c: PendingCommit,
    epoch_id: u64,
    word_id: u64,
)
    ensures
        ({
            let k = key_text(epoch_id, word_id);
            let after = m.insert(key_text(c.epoch_id, c.word_id), c);
            if epoch_id == c.epoch_id && word_id == c.word_id {
                after.contains_key(k) && after[k] == c
            } else {
                after.contains_key(k) == m.contains_key(k) && (m.contains_key(k) ==> after[k]
                    == m[k])
            }
        }),
{
    if key_text(epoch_id, word_id) == key_text(c.epoch_id, c.word_id) {
        law_key_injective(epoch_id, word_id, c.epoch_id, c.word_id);
    }
}

/// Putting keeps every commit under its own key, and so does changing a commit in
/// place as long as its epoch and word stay. In such a state the commit that is found
/// for a word in an epoch is one to that word in that epoch.
pub proof fn law_commits_stay_under_their_keys(
    m: Map<Seq<char>, PendingCommit>,
    c: PendingCommit,
    epoch_id: u64,
    word_id: u64,
)
    requires
        well_keyed(m),
    ensures
        well_keyed(m.insert(key_text(c.epoch_id, c.word_id), c)),
        ({
            let k = key_text(epoch_id, word_id);
            m.contains_key(k) ==> m[k].epoch_id == epoch_id && m[k].word_id == word_id
        }),
{
    let k = key_text(epoch_id, word_id);
    if m.contains_key(k) {
        law_key_injective(epoch_id, word_id, m[k].epoch_id, m[k].word_id);
    }
}

} // verus!
