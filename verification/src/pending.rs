//! The commits of an agent, by key, in the order of their keys.

use vstd::prelude::*;

use crate::order::{side_of, Side};

verus! {

/// How far a commit has come.
#[derive(Clone, Copy, Debug, PartialEq, Eq, Structural)]
pub enum CommitStatus {
    /// The salt and the answer are on disk and the transaction is not yet confirmed.
    /// They are written before the broadcast, so that a crash in between loses
    /// neither.
    Pending,
    /// The receipt confirmed the commit.
    Committed,
    /// The answer has been revealed.
    Revealed,
    /// The draw picked this agent; the word can be inscribed.
    Won,
    /// The draw picked another agent; nothing is left to do.
    Lost,
    /// The word has been minted.
    Inscribed,
    /// Something went wrong; kept for debugging.
    Failed,
}

impl CommitStatus {
    /// The status of a stored commit: the one on record, and `Committed` for a record
    /// that predates the field.
    pub fn on_load(recorded: Option<CommitStatus>) -> (r: CommitStatus)
        ensures
            recorded is None ==> r is Committed,
            recorded is Some ==> r == recorded->0,
    {
        match recorded {
            Some(s) => s,
            None => CommitStatus::Committed,
        }
    }
}

/// What has to be remembered of a commit in order to reveal it: the chain carries
/// only a hash of the answer, the salt and the agent.
#[derive(Debug)]
pub struct PendingCommit {
    pub epoch_id: u64,
    pub word_id: u64,
    pub answer: String,
    /// 32 bytes in hexadecimal, after `0x`.
    pub salt_hex: String,
    /// The agent's address, in lowercase.
    pub agent: String,
    /// The hash of the commit transaction.
    pub commit_tx: String,
    /// The 32 bytes that were committed to.
    pub commit_hash: String,
    /// Unix seconds.
    pub committed_at: i64,
    pub language: String,
    pub power: u16,
    pub language_id: u8,
    pub status: CommitStatus,
    pub reveal_tx: Option<String>,
    pub inscribe_tx: Option<String>,
    pub token_id: Option<u64>,
}

/// A copy of an optional string.
fn clone_opt(s: &Option<String>) -> (r: Option<String>)
    ensures
        r == *s,
{
    match s {
        Some(t) => Some(t.clone()),
        None => None,
    }
}

impl Clone for PendingCommit {
    fn clone(&self) -> (r: PendingCommit)
        ensures
            r == *self,
    {
        PendingCommit {
            epoch_id: self.epoch_id,
            word_id: self.word_id,
            answer: self.answer.clone(),
            salt_hex: self.salt_hex.clone(),
            agent: self.agent.clone(),
            commit_tx: self.commit_tx.clone(),
            commit_hash: self.commit_hash.clone(),
            committed_at: self.committed_at,
            language: self.language.clone(),
            power: self.power,
            language_id: self.language_id,
            status: self.status,
            reveal_tx: clone_opt(&self.reveal_tx),
            inscribe_tx: clone_opt(&self.inscribe_tx),
            token_id: self.token_id,
        }
    }
}

/// A map from keys to commits that lists its entries by ascending key.
#[derive(Debug)]
pub struct PendingMap {
    keys: Vec<String>,
    commits: Vec<PendingCommit>,
}

/// `keys` ascend, so no key occurs twice.
spec fn ascending(keys: Seq<String>) -> bool {
    forall|i: int, j: int|
        0 <= i < j < keys.len() ==> crate::order::before(#[trigger] keys[i]@, #[trigger] keys[j]@)
}

/// Some entry of `keys` is `k`.
spec fn among(keys: Seq<String>, k: Seq<char>) -> bool {
    exists|i: int| 0 <= i < keys.len() && #[trigger] keys[i]@ == k
}

/// A position at which `keys` has `k`.
spec fn position(keys: Seq<String>, k: Seq<char>) -> int {
    choose|i: int| 0 <= i < keys.len() && #[trigger] keys[i]@ == k
}

/// The map that two parallel sequences stand for.
spec fn table(keys: Seq<String>, commits: Seq<PendingCommit>) -> Map<
    Seq<char>,
    PendingCommit,
> {
    Map::new(|k: Seq<char>| among(keys, k), |k: Seq<char>| commits[position(keys, k)])
}

/// A key of an ascending sequence stands at one position only.
proof fn lemma_position(keys: Seq<String>, i: int)
    requires
        ascending(keys),
        0 <= i < keys.len(),
    ensures
        among(keys, keys[i]@),
        position(keys, keys[i]@) == i,
{
    let p = position(keys, keys[i]@);
    assert(keys[i]@ == keys[i]@);
    crate::order::lemma_before_irreflexive(keys[i]@);
}

impl View for PendingMap {
    type V = Map<Seq<char>, PendingCommit>;

    closed spec fn view(&self) -> Map<Seq<char>, PendingCommit> {
        table(self.keys@, self.commits@)
    }
}

impl PendingMap {
    #[verifier::type_invariant]
    spec fn inv(self) -> bool {
        &&& self.keys@.len() == self.commits@.len()
        &&& ascending(self.keys@)
    }

    /// A map without entries.
    pub fn new() -> (r: PendingMap)
        ensures
            r@ == Map::<Seq<char>, PendingCommit>::empty(),
    {
        let r = PendingMap { keys: Vec::new(), commits: Vec::new() };
        assert(r@ =~= Map::<Seq<char>, PendingCommit>::empty());
        r
    }

    /// The position of the first key that does not come before `key`, and whether that
    /// key is `key`.
    fn locate(&self, key: &str) -> (r: (usize, bool))
        ensures
            r.0 <= self.keys@.len(),
            forall|i: int| 0 <= i < r.0 ==> crate::order::before(#[trigger] self.keys@[i]@, key@),
            r.1 ==> r.0 < self.keys@.len() && self.keys@[r.0 as int]@ == key@,
            !r.1 ==> forall|i: int|
                r.0 <= i < self.keys@.len() ==> crate::order::before(
                    key@,
                    #[trigger] self.keys@[i]@,
                ),
            r.1 == self@.contains_key(key@),
            r.1 ==> self.commits@[r.0 as int] == self@[key@],
    {
        proof {
            use_type_invariant(self);
            crate::order::lemma_before_irreflexive(key@);
        }
        let n: usize = self.keys.len();
        let mut i: usize = 0;
        while i < n
            invariant
                n == self.keys@.len(),
                i <= n,
                ascending(self.keys@),
                !crate::order::before(key@, key@),
                forall|j: int|
                    0 <= j < i ==> crate::order::before(#[trigger] self.keys@[j]@, key@),
            decreases n - i,
        {
            match side_of(self.keys[i].as_str(), key) {
                Side::Before => {
                    i = i + 1;
                },
                Side::Same => {
                    proof {
                        lemma_position(self.keys@, i as int);
                    }
                    return (i, true);
                },
                Side::After => {
                    proof {
                        assert forall|j: int| i <= j < n implies crate::order::before(
                            key@,
                            #[trigger] self.keys@[j]@,
                        ) by {
                            if i < j {
                                crate::order::lemma_before_transitive(
                                    key@,
                                    self.keys@[i as int]@,
                                    self.keys@[j]@,
                                );
                            }
                        }
                        assert(!among(self.keys@, key@));
                    }
                    return (i, false);
                },
            }
        }
        assert(!among(self.keys@, key@));
        (i, false)
    }

    /// Stores `commit` under `key`, in place of what stood there.
    pub fn insert(&mut self, key: String, commit: PendingCommit)
        ensures
            final(self)@ == old(self)@.insert(key@, commit),
    {
        let (at, found) = self.locate(key.as_str());
        let mut taken: PendingMap = PendingMap::new();
        std::mem::swap(self, &mut taken);
        proof {
            use_type_invariant(&taken);
        }
        let mut keys: Vec<String> = taken.keys;
        let mut commits: Vec<PendingCommit> = taken.commits;
        let ghost (old_keys, old_commits) = (keys@, commits@);
        if found {
            commits.set(at, commit);
            proof {
                lemma_table_replace(old_keys, old_commits, at as int, commit);
            }
        } else {
            let ghost added = key;
            keys.insert(at, key);
            commits.insert(at, commit);
            proof {
                lemma_insert_keeps_order(old_keys, added, at as int);
                lemma_table_insert(old_keys, old_commits, at as int, added, commit);
            }
        }
        *self = PendingMap { keys, commits };
    }

    /// The commit under `key`.
    pub fn get(&self, key: &str) -> (r: Option<&PendingCommit>)
        ensures
            r is Some <==> self@.contains_key(key@),
            r is Some ==> *r->0 == self@[key@],
    {
        let (at, found) = self.locate(key);
        proof {
            use_type_invariant(self);
        }
        if found {
            Some(&self.commits[at])
        } else {
            None
        }
    }

    /// The commit under `key`, for changing it in place.
    pub fn get_mut(&mut self, key: &str) -> (r: Option<&mut PendingCommit>)
        ensures
            r is Some <==> old(self)@.contains_key(key@),
            r is None ==> *final(self) == *old(self),
            r is Some ==> *r->0 == old(self)@[key@] && final(self)@ == old(self)@.insert(
                key@,
                *final(r->0),
            ),
    {
        let (at, found) = self.locate(key);
        proof {
            use_type_invariant(&*self);
        }
        if found {
            proof {
                let (keys, commits) = (self.keys@, self.commits@);
                assert forall|c: PendingCommit|
                    table(keys, #[trigger] commits.update(at as int, c)) == table(
                        keys,
                        commits,
                    ).insert(key@, c) by {
                    lemma_table_replace(keys, commits, at as int, c);
                }
            }
            Some(&mut self.commits[at])
        } else {
            None
        }
    }

    /// How many entries there are.
    pub fn len(&self) -> (r: usize)
        ensures
            self@.dom().finite(),
            r == self@.len(),
    {
        proof {
            use_type_invariant(self);
            lemma_table_len(self.keys@, self.commits@);
        }
        self.keys.len()
    }

    /// The entries, each key once, by ascending key. Collected again, they give the same
    /// map.
    pub fn entries(&self) -> (r: Vec<(String, PendingCommit)>)
        ensures
            collected(r@) == self@,
            forall|i: int|
                0 <= i < r@.len() ==> self@.contains_key((#[trigger] r@[i]).0@)
                    && self@[r@[i].0@] == r@[i].1,
            forall|k: Seq<char>| #[trigger]
                self@.contains_key(k) ==> exists|i: int|
                    0 <= i < r@.len() && (#[trigger] r@[i]).0@ == k,
            forall|i: int, j: int|
                0 <= i < j < r@.len() ==> crate::order::before(
                    (#[trigger] r@[i]).0@,
                    (#[trigger] r@[j]).0@,
                ),
    {
        proof {
            use_type_invariant(self);
        }
        let n: usize = self.keys.len();
        let mut out: Vec<(String, PendingCommit)> = Vec::new();
        let mut i: usize = 0;
        while i < n
            invariant
                n == self.keys@.len(),
                n == self.commits@.len(),
                ascending(self.keys@),
                i == out@.len(),
                i <= n,
                forall|j: int|
                    0 <= j < i ==> (#[trigger] out@[j]) == (self.keys@[j], self.commits@[j]),
            decreases n - i,
        {
            out.push((self.keys[i].clone(), self.commits[i].clone()));
            i = i + 1;
        }
        proof {
            lemma_collect_table(self.keys@, self.commits@, out@);
            assert forall|i: int, j: int| 0 <= i < j < out@.len() implies crate::order::before(
                (#[trigger] out@[i]).0@,
                (#[trigger] out@[j]).0@,
            ) by {
                assert(crate::order::before(self.keys@[i]@, self.keys@[j]@));
            }
            assert forall|i: int| 0 <= i < out@.len() implies self@.contains_key(
                (#[trigger] out@[i]).0@,
            ) && self@[out@[i].0@] == out@[i].1 by {
                assert forall|j: int| i < j < out@.len() implies (#[trigger] out@[j]).0@
                    != out@[i].0@ by {
                    crate::order::lemma_before_irreflexive(out@[i].0@);
                }
                law_later_entry_counts(out@, i);
            }
            assert forall|k: Seq<char>| #[trigger] self@.contains_key(k) implies exists|i: int|
                0 <= i < out@.len() && (#[trigger] out@[i]).0@ == k by {
                law_only_entries_count(out@, k);
            }
        }
        out
    }

    /// The map of some entries; of two with one key, the later counts.
    pub fn from_entries(entries: &Vec<(String, PendingCommit)>) -> (r: PendingMap)
        ensures
            r@ == collected(entries@),
    {
        let mut r: PendingMap = PendingMap::new();
        let mut i: usize = 0;
        while i < entries.len()
            invariant
                i <= entries@.len(),
                r@ == collected(entries@.take(i as int)),
            decreases entries@.len() - i,
        {
            r.insert(entries[i].0.clone(), entries[i].1.clone());
            i = i + 1;
            assert(entries@.take(i as int).drop_last() =~= entries@.take(i - 1));
        }
        assert(entries@.take(i as int) =~= entries@);
        r
    }
}

/// The map of some entries; of two with one key, the later counts.
pub open spec fn collected(entries: Seq<(String, PendingCommit)>) -> Map<Seq<char>, PendingCommit>
    decreases entries.len(),
{
    if entries.len() == 0 {
        Map::empty()
    } else {
        collected(entries.drop_last()).insert(entries.last().0@, entries.last().1)
    }
}

/// Of the entries with one key the last one counts: the map has its commit under the key.
pub proof fn law_later_entry_counts(entries: Seq<(String, PendingCommit)>, i: int)
    requires
        0 <= i < entries.len(),
        forall|j: int| i < j < entries.len() ==> (#[trigger] entries[j]).0@ != entries[i].0@,
    ensures
        collected(entries).contains_key(entries[i].0@),
        collected(entries)[entries[i].0@] == entries[i].1,
    decreases entries.len(),
{
    let init = entries.drop_last();
    if i < init.len() {
        assert(init[i] == entries[i]);
        assert forall|j: int| i < j < init.len() implies (#[trigger] init[j]).0@
            != init[i].0@ by {
            assert(init[j] == entries[j]);
        }
        law_later_entry_counts(init, i);
        assert(entries[entries.len() - 1].0@ != entries[i].0@);
    }
}

/// The map has no key that no entry has.
pub proof fn law_only_entries_count(entries: Seq<(String, PendingCommit)>, k: Seq<char>)
    requires
        collected(entries).contains_key(k),
    ensures
        exists|i: int| 0 <= i < entries.len() && (#[trigger] entries[i]).0@ == k,
    decreases entries.len(),
{
    let init = entries.drop_last();
    if entries.last().0@ == k {
        assert(entries[entries.len() - 1].0@ == k);
    } else {
        law_only_entries_count(init, k);
        let i = choose|i: int| 0 <= i < init.len() && (#[trigger] init[i]).0@ == k;
        assert(entries[i].0@ == k);
    }
}

/// A table with ascending keys has as many entries as keys.
proof fn lemma_table_len(keys: Seq<String>, commits: Seq<PendingCommit>)
    requires
        ascending(keys),
        keys.len() == commits.len(),
    ensures
        table(keys, commits).dom().finite(),
        table(keys, commits).len() == keys.len(),
    decreases keys.len(),
{
    if keys.len() == 0 {
        assert(table(keys, commits) =~= Map::<Seq<char>, PendingCommit>::empty());
    } else {
        let n = keys.len() - 1;
        let (ks, cs) = (keys.drop_last(), commits.drop_last());
        assert forall|i: int, j: int| 0 <= i < j < ks.len() implies crate::order::before(
            #[trigger] ks[i]@,
            #[trigger] ks[j]@,
        ) by {
            assert(crate::order::before(keys[i]@, keys[j]@));
        }
        lemma_table_len(ks, cs);
        assert(ks.insert(n as int, keys[n]) =~= keys);
        assert(cs.insert(n as int, commits[n]) =~= commits);
        lemma_table_insert(ks, cs, n as int, keys[n], commits[n]);
        crate::order::lemma_before_irreflexive(keys[n]@);
        assert forall|i: int| 0 <= i < ks.len() implies #[trigger] ks[i]@ != keys[n]@ by {
            assert(crate::order::before(keys[i]@, keys[n]@));
        }
        assert(!table(ks, cs).contains_key(keys[n]@));
    }
}

/// Parallel sequences with ascending keys, collected entry by entry, give their table.
proof fn lemma_collect_table(
    keys: Seq<String>,
    commits: Seq<PendingCommit>,
    entries: Seq<(String, PendingCommit)>,
)
    requires
        ascending(keys),
        keys.len() == commits.len(),
        keys.len() == entries.len(),
        forall|j: int| 0 <= j < keys.len() ==> (#[trigger] entries[j]) == (keys[j], commits[j]),
    ensures
        collected(entries) == table(keys, commits),
    decreases entries.len(),
{
    if entries.len() == 0 {
        assert(collected(entries) =~= table(keys, commits));
    } else {
        let n = keys.len() - 1;
        let (ks, cs, es) = (keys.drop_last(), commits.drop_last(), entries.drop_last());
        assert forall|i: int, j: int| 0 <= i < j < ks.len() implies crate::order::before(
            #[trigger] ks[i]@,
            #[trigger] ks[j]@,
        ) by {
            assert(crate::order::before(keys[i]@, keys[j]@));
        }
        assert forall|j: int| 0 <= j < ks.len() implies (#[trigger] es[j]) == (ks[j], cs[j]) by {
            assert(es[j] == entries[j]);
        }
        lemma_collect_table(ks, cs, es);
        assert(ks.insert(n as int, keys[n]) =~= keys);
        assert(cs.insert(n as int, commits[n]) =~= commits);
        lemma_table_insert(ks, cs, n as int, keys[n], commits[n]);
        assert(entries[n] == (keys[n], commits[n]));
    }
}

impl Clone for PendingMap {
    fn clone(&self) -> (r: PendingMap)
        ensures
            r@ == self@,
    {
        proof {
            use_type_invariant(self);
        }
        let n: usize = self.keys.len();
        let mut keys: Vec<String> = Vec::new();
        let mut commits: Vec<PendingCommit> = Vec::new();
        let mut i: usize = 0;
        while i < n
            invariant
                n == self.keys@.len(),
                n == self.commits@.len(),
                i <= n,
                keys@ == self.keys@.take(i as int),
                commits@ == self.commits@.take(i as int),
            decreases n - i,
        {
            keys.push(self.keys[i].clone());
            commits.push(self.commits[i].clone());
            i = i + 1;
            assert(keys@ =~= self.keys@.take(i as int));
            assert(commits@ =~= self.commits@.take(i as int));
        }
        assert(keys@ =~= self.keys@);
        assert(commits@ =~= self.commits@);
        PendingMap { keys, commits }
    }
}

/// A new commit at a position replaces the one under the key there.
proof fn lemma_table_replace(
    keys: Seq<String>,
    commits: Seq<PendingCommit>,
    at: int,
    c: PendingCommit,
)
    requires
        keys.len() == commits.len(),
        ascending(keys),
        0 <= at < keys.len(),
    ensures
        table(keys, commits.update(at, c)) == table(keys, commits).insert(keys[at]@, c),
{
    lemma_position(keys, at);
    let new = table(keys, commits.update(at, c));
    let want = table(keys, commits).insert(keys[at]@, c);
    assert forall|k: Seq<char>| new.contains_key(k) implies new[k] == want[k] by {
        let p = position(keys, k);
        assert(0 <= p < keys.len() && keys[p]@ == k);
    }
    assert(new =~= want);
}

/// A key and a commit put in at a position where the keys still ascend.
proof fn lemma_table_insert(
    keys: Seq<String>,
    commits: Seq<PendingCommit>,
    at: int,
    key: String,
    c: PendingCommit,
)
    requires
        keys.len() == commits.len(),
        ascending(keys),
        0 <= at <= keys.len(),
        ascending(keys.insert(at, key)),
    ensures
        table(keys.insert(at, key), commits.insert(at, c)) == table(keys, commits).insert(
            key@,
            c,
        ),
{
    let new_keys = keys.insert(at, key);
    let new = table(new_keys, commits.insert(at, c));
    let old = table(keys, commits);
    let want = old.insert(key@, c);
    assert(new_keys[at] == key);
    lemma_position(new_keys, at);
    assert forall|i: int| 0 <= i < keys.len() implies {
        &&& new.contains_key(#[trigger] keys[i]@)
        &&& keys[i]@ != key@ ==> new[keys[i]@] == old[keys[i]@]
    } by {
        let j = if i < at {
            i
        } else {
            i + 1
        };
        assert(new_keys[j] == keys[i]);
        lemma_position(new_keys, j);
        lemma_position(keys, i);
    }
    assert forall|k: Seq<char>| #[trigger] new.contains_key(k) == want.contains_key(k) by {
        if new.contains_key(k) {
            let p = position(new_keys, k);
            assert(0 <= p < new_keys.len() && new_keys[p]@ == k);
            if p != at {
                let i = if p < at {
                    p
                } else {
                    p - 1
                };
                assert(keys[i] == new_keys[p]);
                assert(among(keys, k));
            }
        }
    }
    assert forall|k: Seq<char>| #[trigger] new.contains_key(k) implies new[k] == want[k] by {
        if k != key@ {
            assert(want.contains_key(k));
            let i = position(keys, k);
            assert(0 <= i < keys.len() && keys[i]@ == k);
        }
    }
    assert(new =~= want);
}

proof fn lemma_insert_keeps_order(keys: Seq<String>, key: String, at: int)
    requires
        ascending(keys),
        0 <= at <= keys.len(),
        forall|i: int| 0 <= i < at ==> crate::order::before(#[trigger] keys[i]@, key@),
        forall|i: int| at <= i < keys.len() ==> crate::order::before(key@, #[trigger] keys[i]@),
    ensures
        ascending(keys.insert(at, key)),
{
    let new = keys.insert(at, key);
    assert forall|i: int, j: int| 0 <= i < j < new.len() implies crate::order::before(
        #[trigger] new[i]@,
        #[trigger] new[j]@,
    ) by {
        let old_i = if i < at {
            i
        } else {
            i - 1
        };
        let old_j = if j < at {
            j
        } else {
            j - 1
        };
        if i != at && j != at {
            assert(new[i] == keys[old_i]);
            assert(new[j] == keys[old_j]);
        } else if i == at {
            assert(new[j] == keys[old_j]);
        } else {
            assert(new[i] == keys[old_i]);
        }
    }
}

} // verus!
