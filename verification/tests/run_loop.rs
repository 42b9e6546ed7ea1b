use ardi_agent::cmd::run_loop::{
    is_fatal, on_interrupt, plan, setup_error, tick_banner, tick_line, tick_script, DirSearch,
    Interrupt, LoopArgs, LoopEnd, LoopEvent, LoopPlan, LoopState, SetupError, POLL_SEC,
};
use ardi_agent::paths::PathStyle;
use ardi_agent::probe::{code_or_minus_one, Exit, Seen};

fn args(interval_sec: Option<u64>, once: bool) -> LoopArgs {
    LoopArgs { interval_sec, once }
}

fn text(s: &str) -> Option<String> {
    Some(s.to_string())
}

/// Drives a search to its end with the answers of fixed surroundings.
fn search(over: Option<&str>, home: Option<&str>, dirs: &[&str]) -> (DirSearch<String>, Vec<String>) {
    let mut s = DirSearch::start();
    let mut probed = Vec::new();
    loop {
        let seen = match &s {
            DirSearch::ReadOverride => Seen::Var(over.map(|v| v.to_string())),
            DirSearch::ReadHome => Seen::Var(home.map(|v| v.to_string())),
            _ => match s.probe(PathStyle::Posix) {
                Some(p) => {
                    let there = dirs.contains(&p.as_str());
                    probed.push(p);
                    Seen::Present(there)
                }
                None => return (s, probed),
            },
        };
        s = s.step(PathStyle::Posix, seen);
    }
}

fn found(s: &DirSearch<String>) -> &str {
    match s {
        DirSearch::Found(p) => p,
        _ => panic!("not found"),
    }
}

#[test]
fn intervals() {
    assert_eq!(args(None, false).interval(), 90);
    assert_eq!(args(Some(0), false).interval(), 30);
    assert_eq!(args(Some(29), false).interval(), 30);
    assert_eq!(args(Some(30), false).interval(), 30);
    assert_eq!(args(Some(600), false).interval(), 600);
    assert_eq!(args(Some(u64::MAX), false).interval(), u64::MAX);
}

#[test]
fn the_override_dir_comes_first() {
    let (s, probed) = search(Some("/o"), None, &["/o"]);
    assert_eq!(found(&s), "/o");
    assert_eq!(probed, vec!["/o"]);
}

#[test]
fn an_override_that_is_no_dir_is_passed_over() {
    let (s, probed) = search(Some("/o"), Some("/h"), &["/h/.local/share/ardi-auto-mine"]);
    assert_eq!(found(&s), "/h/.local/share/ardi-auto-mine");
    assert_eq!(probed, vec!["/o", "/h/.local/share/ardi-auto-mine"]);
}

#[test]
fn installed_scripts_come_before_a_clone() {
    let both = ["/h/.local/share/ardi-auto-mine", "/h/ardi-skill/tools/auto-mine"];
    assert_eq!(found(&search(None, Some("/h"), &both).0), both[0]);
    assert_eq!(found(&search(None, Some("/h"), &both[1..]).0), both[1]);
}

#[test]
fn searches_that_fail() {
    let (s, _) = search(None, None, &[]);
    assert_eq!(s.error(), text("$HOME not set"));
    let (s, probed) = search(None, Some("/h"), &[]);
    assert_eq!(probed.len(), 2);
    let e = s.error().unwrap();
    assert!(e.starts_with("auto-mine install dir not found. Run `ardi-agent auto-mine` first"));
    assert!(e.ends_with("instead of starting a timer)."));
    assert_eq!(search(Some("/o"), None, &["/o"]).0.error(), None);
}

#[test]
fn an_answer_to_another_question_changes_nothing() {
    let s = DirSearch::start().step(PathStyle::Posix, Seen::Present(true));
    assert!(matches!(s, DirSearch::ReadOverride));
    let s = s.step(PathStyle::Posix, Seen::Ran(Exit::Succeeded));
    assert!(matches!(s, DirSearch::ReadOverride));
}

#[test]
fn plans() {
    assert_eq!(tick_script(PathStyle::Posix, "/d"), "/d/ardi-tick.sh");
    let p = plan(args(Some(5), true), "/d/t".to_string(), true, text("/h"), PathStyle::Posix).unwrap();
    assert_eq!(p.interval, 30);
    assert!(p.once);
    assert_eq!(p.tick, "/d/t");
    assert_eq!(p.env_file, "/h/.ardi-agent/auto-mine.env");
}

#[test]
fn plans_that_fail() {
    let missing = plan(args(None, false), "/d/t".to_string(), false, None, PathStyle::Posix);
    assert_eq!(missing.err(), Some(SetupError::TickMissing));
    let homeless = plan(args(None, false), "/d/t".to_string(), true, None, PathStyle::Posix);
    assert_eq!(homeless.err(), Some(SetupError::NoHome));
    assert_eq!(
        setup_error(SetupError::TickMissing, "/d/t"),
        "ardi-tick.sh not found at /d/t. Run `ardi-agent auto-mine` once to install the runtime files (it works on no-systemd hosts too — it just won't start a timer)."
    );
    assert_eq!(setup_error(SetupError::NoHome, "/d/t"), "$HOME not set");
}

#[test]
fn opening_lines() {
    let p = LoopPlan {
        interval: 90,
        once: false,
        tick: "/t".to_string(),
        env_file: "/e".to_string(),
    };
    let known = p.opening_lines(true);
    assert_eq!(
        known,
        vec![
            "[info] ardi-agent loop starting",
            "[info]   tick:    /t",
            "[info]   env:     /e",
            "[info]   every:   90s",
            "[info]   once:    false",
            "[info] press Ctrl-C to stop (current tick finishes first)",
        ]
    );
    let missing = p.opening_lines(false);
    assert_eq!(
        missing[0],
        "[warn] env file not found at /e — proceeding with current process env."
    );
    assert_eq!(missing[1], "[warn]   `ardi-agent auto-mine` writes this file on first run.");
    assert_eq!(missing[2..], known[..]);
    assert_eq!(p.command(), "set -a; [ -r '/e' ] && . '/e'; exec '/t'");
}

fn done(exit: Exit<String>, stop: bool) -> LoopEvent<String> {
    LoopEvent::TickDone(exit, stop)
}

fn paced(interval: u64, once: bool) -> LoopPlan {
    LoopPlan { interval, once, tick: "/t".to_string(), env_file: "/e".to_string() }
}

#[test]
fn a_loop_ticks_and_sleeps() {
    let p = paced(30, false);
    let mut s = LoopState::start();
    assert_eq!(s, LoopState::Ticking(1));
    s = s.step(&p, &done(Exit::Succeeded, false));
    assert_eq!(s, LoopState::Sleeping(1));
    s = s.step(&p, &LoopEvent::Awake(0, false));
    assert_eq!(s, LoopState::Sleeping(1));
    s = s.step(&p, &LoopEvent::Awake(29, false));
    assert_eq!(s, LoopState::Sleeping(1));
    s = s.step(&p, &LoopEvent::Awake(30, false));
    assert_eq!(s, LoopState::Ticking(2));
    s = s.step(&p, &LoopEvent::Awake(100, false));
    assert_eq!(s, LoopState::Ticking(2));
}

#[test]
fn the_interval_passes_at_its_last_second() {
    let p = paced(31, false);
    assert!(!p.interval_passed(0));
    assert!(!p.interval_passed(30));
    assert!(p.interval_passed(31));
    assert!(p.interval_passed(u64::MAX));
}

#[test]
fn one_tick_is_enough_with_once() {
    let p = paced(30, true);
    let s = LoopState::start().step(&p, &done(Exit::Failed(Some(1)), true));
    assert_eq!(s, LoopState::Ended(LoopEnd::Once));
    assert_eq!(s.step(&p, &LoopEvent::Awake(90, true)), s);
}

#[test]
fn setup_errors_end_the_loop() {
    for code in [64, 65, 66] {
        assert!(is_fatal(code));
        let s = LoopState::Ticking(3).step(&paced(30, true), &done(Exit::Failed(Some(code)), true));
        assert_eq!(s, LoopState::Ended(LoopEnd::BadSetup(code)));
    }
    assert_eq!(
        LoopEnd::BadSetup(65).error(),
        text("ardi-tick.sh exited 65 (setup error). Re-run `ardi-agent auto-mine` to fix the install.")
    );
    assert_eq!(LoopEnd::BadSetup(65).farewell(), None);
}

#[test]
fn other_failures_are_transient() {
    for exit in [
        Exit::Failed(Some(1)),
        Exit::Failed(Some(63)),
        Exit::Failed(Some(67)),
        Exit::Failed(None),
        Exit::NotStarted("no bash".to_string()),
    ] {
        let s = LoopState::Ticking(3).step(&paced(30, false), &done(exit, false));
        assert_eq!(s, LoopState::Sleeping(3));
    }
}

#[test]
fn a_stop_ends_the_loop() {
    let p = paced(30, false);
    let s = LoopState::Ticking(3).step(&p, &done(Exit::Succeeded, true));
    assert_eq!(s, LoopState::Ended(LoopEnd::Stopped));
    for slept_sec in [0, 29, 30, 31] {
        let s = LoopState::Sleeping(3).step(&p, &LoopEvent::Awake(slept_sec, true));
        assert_eq!(s, LoopState::Ended(LoopEnd::StoppedAsleep));
    }
}

#[test]
fn a_sleeping_loop_notices_a_stop_within_a_second() {
    let p = paced(600, false);
    let (mut s, mut now, request) = (LoopState::Sleeping(1), 0, 7);
    while let LoopState::Sleeping(_) = s {
        now += POLL_SEC;
        s = s.step(&p, &LoopEvent::Awake(now, now >= request));
    }
    assert_eq!(s, LoopState::Ended(LoopEnd::StoppedAsleep));
    assert!(now <= request + 1);
}

#[test]
fn farewells() {
    assert_eq!(LoopEnd::Once.farewell(), text("[info] --once given, exiting after this tick"));
    assert_eq!(LoopEnd::Stopped.farewell(), text("[info] stop flag set, exiting cleanly"));
    assert_eq!(
        LoopEnd::StoppedAsleep.farewell(),
        text("[info] stop flag set during sleep, exiting cleanly")
    );
    for end in [LoopEnd::Once, LoopEnd::Stopped, LoopEnd::StoppedAsleep] {
        assert_eq!(end.error(), None);
    }
}

#[test]
fn tick_lines() {
    assert_eq!(tick_banner(12), "[info] ─── tick 12 ───");
    assert_eq!(tick_line(7, &Exit::Succeeded, "1.5"), "[info] tick 7 ok (1.5s)");
    assert_eq!(tick_line(7, &Exit::Failed(Some(64)), "0.1"), "[error] tick 7 exited 64 (0.1s)");
    assert_eq!(tick_line(7, &Exit::Failed(Some(2)), "0.1"), "[warn] tick 7 exited 2 (0.1s)");
    assert_eq!(tick_line(7, &Exit::Failed(None), "0.1"), "[warn] tick 7 exited -1 (0.1s)");
    assert_eq!(
        tick_line(7, &Exit::NotStarted("x".to_string()), "0.1"),
        "[error] failed to spawn ardi-tick.sh: x"
    );
}

#[test]
fn exit_codes() {
    assert_eq!(code_or_minus_one(Some(3)), 3);
    assert_eq!(code_or_minus_one(None), -1);
}

#[test]
fn interrupts() {
    assert_eq!(on_interrupt(false), Interrupt::StopSoon);
    assert_eq!(on_interrupt(true), Interrupt::ExitNow(130));
    assert_eq!(
        Interrupt::StopSoon.line(),
        "[info] stop requested — finishing current tick, then exiting"
    );
    assert_eq!(
        Interrupt::ExitNow(130).line(),
        "[warn] second Ctrl-C — exiting immediately"
    );
}
