use ardi_agent::cmd::run_loop::tick_script;
use ardi_agent::paths::{state_paths, state_paths_for, PathStyle, StatePaths};
use ardi_agent::state::{CommitStatus, PendingCommit, PendingMap, ReadFailure, State, StateSource};
use ardi_agent::text::{decimal_i32, decimal_u64};

fn commit(epoch_id: u64, word_id: u64, answer: &str) -> PendingCommit {
    PendingCommit {
        epoch_id,
        word_id,
        answer: answer.to_string(),
        salt_hex: "0x01".to_string(),
        agent: "0xabc".to_string(),
        commit_tx: "0x02".to_string(),
        commit_hash: "0x03".to_string(),
        committed_at: -5,
        language: "en".to_string(),
        power: 80,
        language_id: 3,
        status: CommitStatus::Pending,
        reveal_tx: None,
        inscribe_tx: Some("0x04".to_string()),
        token_id: Some(9),
    }
}

fn keys(s: &State) -> Vec<String> {
    s.pending.entries().into_iter().map(|(k, _)| k).collect()
}

#[test]
fn numerals() {
    assert_eq!(decimal_u64(0), "0");
    assert_eq!(decimal_u64(10), "10");
    assert_eq!(decimal_u64(u64::MAX), "18446744073709551615");
    assert_eq!(decimal_i32(-1), "-1");
    assert_eq!(decimal_i32(66), "66");
    assert_eq!(decimal_i32(i32::MIN), "-2147483648");
}

#[test]
fn keys_join_epoch_and_word() {
    assert_eq!(State::key(7, 42), "7:42");
    assert_eq!(State::key(0, u64::MAX), "0:18446744073709551615");
}

#[test]
fn keys_tell_words_apart() {
    assert_ne!(State::key(1, 11), State::key(11, 1));
    assert_ne!(State::key(1, 23), State::key(12, 3));
}

#[test]
fn a_default_state_is_empty() {
    let s = State::default();
    assert!(s.get(1, 1).is_none());
    assert!(keys(&s).is_empty());
    assert_eq!(s.pending.len(), 0);
}

#[test]
fn put_then_get() {
    let mut s = State::default();
    s.put(commit(9, 1, "river"));
    s.put(commit(10, 1, "stone"));
    assert_eq!(s.get(9, 1).unwrap().answer, "river");
    assert_eq!(s.get(10, 1).unwrap().answer, "stone");
    assert!(s.get(1, 9).is_none());
}

#[test]
fn put_replaces_the_same_word() {
    let mut s = State::default();
    s.put(commit(9, 1, "river"));
    s.put(commit(9, 2, "cloud"));
    s.put(commit(9, 1, "brook"));
    assert_eq!(s.get(9, 1).unwrap().answer, "brook");
    assert_eq!(s.get(9, 2).unwrap().answer, "cloud");
    assert_eq!(keys(&s).len(), 2);
    assert_eq!(s.pending.len(), 2);
}

#[test]
fn get_mut_changes_one_commit() {
    let mut s = State::default();
    s.put(commit(9, 1, "river"));
    s.put(commit(9, 2, "cloud"));
    s.get_mut(9, 2).unwrap().status = CommitStatus::Revealed;
    assert_eq!(s.get(9, 2).unwrap().status, CommitStatus::Revealed);
    assert_eq!(s.get(9, 1).unwrap().status, CommitStatus::Pending);
    assert!(s.get_mut(9, 3).is_none());
}

#[test]
fn commits_are_found_under_their_own_keys() {
    let mut s = State::default();
    for e in 1..4 {
        for w in 1..4 {
            s.put(commit(e, w, "x"));
        }
    }
    for (k, c) in s.pending.entries() {
        assert_eq!(k, State::key(c.epoch_id, c.word_id));
        assert_eq!(s.get(c.epoch_id, c.word_id).unwrap().word_id, c.word_id);
    }
}

#[test]
fn entries_are_listed_in_string_order() {
    let mut s = State::default();
    for (e, w) in [(9, 1), (10, 2), (1, 5), (10, 1), (100, 0)] {
        s.put(commit(e, w, "x"));
    }
    let listed = keys(&s);
    assert_eq!(listed, vec!["100:0", "10:1", "10:2", "1:5", "9:1"]);
    let mut sorted = listed.clone();
    sorted.sort();
    assert_eq!(listed, sorted);
}

#[test]
fn entries_collect_back_to_the_map() {
    let mut s = State::default();
    s.put(commit(9, 1, "river"));
    s.put(commit(10, 1, "stone"));
    let back = State { pending: PendingMap::from_entries(&s.pending.entries()) };
    assert_eq!(keys(&back), keys(&s));
    assert_eq!(back.get(10, 1).unwrap().answer, "stone");
    assert_eq!(back.get(9, 1).unwrap().inscribe_tx.as_deref(), Some("0x04"));
}

#[test]
fn of_two_entries_with_one_key_the_later_counts() {
    let entries = vec![
        ("odd key".to_string(), commit(1, 1, "first")),
        ("a".to_string(), commit(1, 2, "other")),
        ("odd key".to_string(), commit(1, 1, "second")),
    ];
    let m = PendingMap::from_entries(&entries);
    assert_eq!(m.entries().len(), 2);
    assert_eq!(m.get("odd key").unwrap().answer, "second");
    assert!(m.get("1:1").is_none());
}

#[test]
fn keys_outside_ascii_keep_byte_order() {
    let entries = vec![
        ("\u{10000}".to_string(), commit(1, 1, "x")),
        ("\u{ffff}".to_string(), commit(1, 2, "x")),
        ("z".to_string(), commit(1, 3, "x")),
        ("".to_string(), commit(1, 4, "x")),
        ("zz".to_string(), commit(1, 5, "x")),
    ];
    let m = PendingMap::from_entries(&entries);
    let listed: Vec<String> = m.entries().into_iter().map(|(k, _)| k).collect();
    let mut sorted: Vec<String> = entries.into_iter().map(|(k, _)| k).collect();
    sorted.sort();
    assert_eq!(listed, sorted);
}

#[test]
fn a_clone_has_the_same_commits() {
    let mut s = State::default();
    s.put(commit(9, 1, "river"));
    let mut t = s.clone();
    t.get_mut(9, 1).unwrap().answer = "brook".to_string();
    assert_eq!(s.get(9, 1).unwrap().answer, "river");
    assert_eq!(t.get(9, 1).unwrap().answer, "brook");
    assert_eq!(t.get(9, 1).unwrap().token_id, Some(9));
}

#[test]
fn load_from_each_source() {
    assert!(keys(&State::load(StateSource::Missing).unwrap()).is_empty());
    assert!(keys(&State::load(StateSource::Garbled).unwrap()).is_empty());
    assert_eq!(State::load(StateSource::Unreadable).err(), Some(ReadFailure));
    let mut s = State::default();
    s.put(commit(3, 4, "tree"));
    let loaded = State::load(StateSource::Stored(s)).unwrap();
    assert_eq!(loaded.get(3, 4).unwrap().answer, "tree");
}

#[test]
fn a_record_without_a_status_counts_as_committed() {
    assert_eq!(CommitStatus::on_load(None), CommitStatus::Committed);
    assert_eq!(CommitStatus::on_load(Some(CommitStatus::Won)), CommitStatus::Won);
}

#[test]
fn joining_paths() {
    for base in ["/home/a", "/home/a/", "", "/", "a", "C:", "a\\"] {
        let want = std::path::PathBuf::from(base).join("ardi-tick.sh");
        assert_eq!(tick_script(PathStyle::Posix, base), want.to_str().unwrap());
    }
}

#[test]
fn joining_paths_on_windows() {
    for (base, want) in [
        ("C:\\Users\\a", "C:\\Users\\a\\ardi-tick.sh"),
        ("C:\\Users\\a\\", "C:\\Users\\a\\ardi-tick.sh"),
        ("C:/Users/a/", "C:/Users/a/ardi-tick.sh"),
        ("/root", "/root\\ardi-tick.sh"),
        ("C:", "C:ardi-tick.sh"),
        ("1:", "1:\\ardi-tick.sh"),
        ("", "ardi-tick.sh"),
    ] {
        assert_eq!(tick_script(PathStyle::Windows, base), want);
    }
}

fn files(home: Option<&str>, address: Option<&str>) -> StatePaths {
    let own = |s: &str| s.to_string();
    state_paths(PathStyle::Posix, home.map(own), address.map(own))
}

#[test]
fn state_files_of_an_agent() {
    let p = files(Some("/home/m"), Some("0xABcd"));
    assert_eq!(p.state, "/home/m/.ardi-agent/state-0xabcd.json");
    assert_eq!(p.lock, "/home/m/.ardi-agent/state-0xabcd.lock");
    assert_eq!(p.temp, "/home/m/.ardi-agent/state-0xabcd.json.tmp");
}

#[test]
fn the_other_files_replace_the_extension_of_the_state_file() {
    for address in [None, Some("0xab"), Some(""), Some("x.y"), Some("x/"), Some("x/y"), Some("x/.y")] {
        let p = files(Some("/h"), address);
        let path = std::path::Path::new(&p.state);
        assert_eq!(path.with_extension("lock").to_str().unwrap(), p.lock);
        assert_eq!(path.with_extension("json.tmp").to_str().unwrap(), p.temp);
    }
    assert_eq!(files(Some("/h"), Some("x/")).lock, "/h/.ardi-agent/state-x/.json.lock");
}

#[test]
fn state_files_without_an_address_or_a_home() {
    let p = files(None, None);
    assert_eq!(p.state, "/root/.ardi-agent/state.json");
    assert_eq!(p.lock, "/root/.ardi-agent/state.lock");
    assert_eq!(p.temp, "/root/.ardi-agent/state.json.tmp");
}

#[test]
fn an_address_in_lowercase_is_used_as_it_is() {
    let p = state_paths_for(
        PathStyle::Windows,
        Some("C:\\Users\\m".to_string()),
        Some("0xAB".to_string()),
    );
    assert_eq!(p.state, "C:\\Users\\m\\.ardi-agent\\state-0xAB.json");
    assert_eq!(p.lock, "C:\\Users\\m\\.ardi-agent\\state-0xAB.lock");
}

#[test]
fn agents_share_no_file() {
    let mut all: Vec<String> = Vec::new();
    for address in [None, Some("0x1"), Some("0x2"), Some(""), Some("x.json"), Some("x/")] {
        let p = files(Some("/h"), address);
        all.push(p.state);
        all.push(p.lock);
        all.push(p.temp);
    }
    let n = all.len();
    all.sort();
    all.dedup();
    assert_eq!(all.len(), n);
}

#[test]
fn an_address_that_mimics_another_shares_its_lock_but_not_its_state() {
    let p = files(Some("/h"), Some("x/"));
    let q = files(Some("/h"), Some("x/.json"));
    assert_ne!(p.state, q.state);
    assert_eq!(p.lock, q.lock);
}
