use ardi_agent::paths::{state_paths_for, PathStyle};
use ardi_agent::state::{CommitStatus, PendingCommit, State, StateSource};
use ardi_agent::update::{begin, fault_context, step, Action, Event, Fault, Outcome, Stage};

fn commit(epoch_id: u64, word_id: u64) -> PendingCommit {
    PendingCommit {
        epoch_id,
        word_id,
        answer: "a".to_string(),
        salt_hex: "0x01".to_string(),
        agent: "0xabc".to_string(),
        commit_tx: "".to_string(),
        commit_hash: "".to_string(),
        committed_at: 0,
        language: "en".to_string(),
        power: 20,
        language_id: 0,
        status: CommitStatus::Committed,
        reveal_tx: None,
        inscribe_tx: None,
        token_id: None,
    }
}

/// Runs an update in which the step `fail_at` fails; gives the actions asked for and
/// the outcome.
fn run_failing_at(fail_at: &str) -> (Vec<&'static str>, Outcome) {
    let mut asked = Vec::new();
    let (mut stage, mut action) = begin();
    loop {
        let (name, ok) = match action {
            Action::MakeDir => ("dir", Event::DirTried),
            Action::OpenLock => ("open", Event::LockOpened),
            Action::TakeLock => ("lock", Event::LockTaken),
            Action::Load => ("load", Event::Loaded(State::default())),
            Action::Change(s) => ("change", Event::Changed(s)),
            Action::Encode(_) => ("encode", Event::Encoded("{}".to_string())),
            Action::WriteTemp(_) => ("write", Event::TempWritten),
            Action::Replace => ("replace", Event::Replaced),
            Action::Release => ("release", Event::Released),
            Action::Finish(o) => {
                assert_eq!(stage, Stage::Closed(o));
                return (asked, o);
            }
        };
        asked.push(name);
        let event = if name == fail_at { Event::Failed } else { ok };
        assert!(stage.is_answered_by(&event));
        let next = step(stage, event);
        stage = next.0;
        action = next.1;
    }
}

#[test]
fn an_update_loads_changes_and_saves_under_the_lock() {
    let (asked, o) = run_failing_at("");
    assert_eq!(
        asked,
        vec!["dir", "open", "lock", "load", "change", "encode", "write", "replace", "release"]
    );
    assert_eq!(o, Outcome::Saved);
}

#[test]
fn a_lock_that_is_not_held_is_not_released() {
    assert_eq!(
        run_failing_at("open"),
        (vec!["dir", "open"], Outcome::Failed(Fault::OpenLock))
    );
    assert_eq!(
        run_failing_at("lock"),
        (vec!["dir", "open", "lock"], Outcome::Failed(Fault::TakeLock))
    );
}

#[test]
fn every_failure_under_the_lock_releases_it() {
    for (at, fault) in [
        ("load", Fault::Read),
        ("change", Fault::Change),
        ("encode", Fault::Encode),
        ("write", Fault::Write),
        ("replace", Fault::Replace),
    ] {
        let (asked, o) = run_failing_at(at);
        assert_eq!(o, Outcome::Failed(fault));
        assert_eq!(asked[asked.len() - 2], at);
        assert_eq!(asked[asked.len() - 1], "release");
        assert!(at == "replace" || !asked.contains(&"replace"));
    }
}

#[test]
fn only_fitting_events_answer_a_stage() {
    assert!(!Stage::MakeDir.is_answered_by(&Event::Failed));
    assert!(!Stage::OpenLock.is_answered_by(&Event::LockTaken));
    assert!(!Stage::Release(Outcome::Saved).is_answered_by(&Event::Failed));
    assert!(!Stage::Closed(Outcome::Saved).is_answered_by(&Event::Released));
    assert!(Stage::Replace.is_answered_by(&Event::Failed));
}

/// What the update at `stage` is to do next, done on the shared file.
fn advance(
    stage: Stage,
    action: Action,
    file: &mut Option<State>,
    temp: &mut Option<State>,
    put: (u64, u64),
) -> (Stage, Action) {
    let event = match action {
        Action::MakeDir => Event::DirTried,
        Action::OpenLock => Event::LockOpened,
        Action::TakeLock => Event::LockTaken,
        Action::Load => Event::Loaded(
            State::load(match file {
                Some(s) => StateSource::Stored(s.clone()),
                None => StateSource::Missing,
            })
            .unwrap(),
        ),
        Action::Change(mut s) => {
            s.put(commit(put.0, put.1));
            Event::Changed(s)
        }
        Action::Encode(s) => {
            *temp = Some(s);
            Event::Encoded("text".to_string())
        }
        Action::WriteTemp(text) => {
            assert_eq!(text, "text");
            Event::TempWritten
        }
        Action::Replace => {
            *file = temp.take();
            Event::Replaced
        }
        Action::Release => Event::Released,
        Action::Finish(_) => panic!("already finished"),
    };
    step(stage, event)
}

#[test]
fn two_updates_at_once_lose_no_commit() {
    for first in [0usize, 1] {
        let mut file: Option<State> = None;
        let mut temp: Option<State> = None;
        let mut holder: Option<usize> = None;
        let mut slots = [Some(begin()), Some(begin())];
        let puts = [(10, 1), (10, 2)];
        let mut turn = first;
        let mut done = 0;
        while done < 2 {
            turn = 1 - turn;
            let ready = match &slots[turn] {
                None => false,
                Some((_, Action::TakeLock)) => holder.is_none(),
                Some(_) => true,
            };
            if !ready {
                continue;
            }
            let (stage, action) = slots[turn].take().unwrap();
            match action {
                Action::TakeLock => holder = Some(turn),
                Action::Release => holder = None,
                _ => {}
            }
            if let Action::Finish(o) = action {
                assert_eq!(o, Outcome::Saved);
                done += 1;
                continue;
            }
            slots[turn] = Some(advance(stage, action, &mut file, &mut temp, puts[turn]));
        }
        let end = file.unwrap();
        assert!(end.get(10, 1).is_some());
        assert!(end.get(10, 2).is_some());
    }
}

#[test]
fn failures_name_their_file() {
    let p = state_paths_for(PathStyle::Posix, Some("/h".to_string()), Some("0x1".to_string()));
    assert_eq!(
        fault_context(Fault::OpenLock, &p).unwrap(),
        "open lock file /h/.ardi-agent/state-0x1.lock"
    );
    assert_eq!(
        fault_context(Fault::TakeLock, &p).unwrap(),
        "flock /h/.ardi-agent/state-0x1.lock"
    );
    assert_eq!(
        fault_context(Fault::Read, &p).unwrap(),
        "read /h/.ardi-agent/state-0x1.json"
    );
    for f in [Fault::Change, Fault::Encode, Fault::Write, Fault::Replace] {
        assert!(fault_context(f, &p).is_none());
    }
}

#[test]
fn an_update_that_disappears_leaves_the_next_one_its_turn() {
    let names = ["open", "lock", "load", "change", "encode", "write", "replace", "release"];
    for lost_after in 1..names.len() {
        let mut file: Option<State> = None;
        let mut temp: Option<State> = None;
        let mut slot = begin();
        for _ in 0..lost_after {
            slot = advance(slot.0, slot.1, &mut file, &mut temp, (10, 1));
        }
        drop(slot);
        assert!(file.is_none());

        let mut slot = begin();
        loop {
            if let Action::Finish(o) = slot.1 {
                assert_eq!(o, Outcome::Saved);
                break;
            }
            slot = advance(slot.0, slot.1, &mut file, &mut temp, (10, 2));
        }
        let end = file.unwrap();
        assert!(end.get(10, 1).is_none());
        assert!(end.get(10, 2).is_some());
    }
}
