use ardi_agent::cmd::auto_mine::{conclude, preflight, running_line, InstallerSearch, REPO_URL};
use ardi_agent::output::Output;
use ardi_agent::probe::{Exit, Seen};

const INSTALLED: &str = "/h/.local/share/ardi-auto-mine/install.sh";
const CLONED: &str = "/h/ardi-skill/tools/auto-mine/install.sh";

/// Drives a search to its end. The files of `after` are there once a clone has run.
fn search(
    over: Option<&str>,
    home: Option<&str>,
    files: &[&str],
    clone: Exit<String>,
    after: &[&str],
) -> (InstallerSearch<String>, Vec<String>) {
    let mut s = InstallerSearch::start();
    let mut said = Vec::new();
    loop {
        let seen = match &s {
            InstallerSearch::ReadOverride => Seen::Var(over.map(|v| v.to_string())),
            InstallerSearch::ReadHome => Seen::Var(home.map(|v| v.to_string())),
            InstallerSearch::Pull(_) => {
                assert_eq!(
                    s.git_args().unwrap(),
                    vec!["-C", "/h/ardi-skill", "pull", "--ff-only", "--quiet"]
                );
                said.push(s.notice().unwrap());
                Seen::Ran(Exit::Failed(Some(1)))
            }
            InstallerSearch::Clone(_) => {
                assert_eq!(
                    s.git_args().unwrap(),
                    vec![
                        "clone",
                        "--depth",
                        "1",
                        "https://github.com/awp-worknet/ardi-skill",
                        "/h/ardi-skill"
                    ]
                );
                said.push(s.notice().unwrap());
                Seen::Ran(clone.clone())
            }
            InstallerSearch::ProbeFresh(_) => {
                Seen::Present(after.contains(&s.probe().unwrap().as_str()))
            }
            _ => match s.probe() {
                Some(p) => Seen::Present(files.contains(&p.as_str())),
                None => return (s, said),
            },
        };
        s = s.step(seen);
    }
}

fn found(s: &InstallerSearch<String>) -> &str {
    match s {
        InstallerSearch::Found(p) => p,
        _ => panic!("not found"),
    }
}

#[test]
fn the_override_comes_first() {
    let (s, said) = search(Some("/o"), None, &["/o"], Exit::Succeeded, &[]);
    assert_eq!(found(&s), "/o");
    assert!(said.is_empty());
}

#[test]
fn the_installed_copy_comes_before_a_clone() {
    let (s, said) = search(Some("/o"), Some("/h"), &[INSTALLED, CLONED], Exit::Succeeded, &[]);
    assert_eq!(found(&s), INSTALLED);
    assert!(said.is_empty());
}

#[test]
fn a_clone_is_used_even_where_the_refresh_fails() {
    let (s, said) = search(None, Some("/h"), &[CLONED], Exit::Succeeded, &[]);
    assert_eq!(found(&s), CLONED);
    assert_eq!(said, vec!["[info] refreshing /h/ardi-skill"]);
}

#[test]
fn a_fresh_clone_comes_last() {
    let (s, said) = search(None, Some("/h"), &[], Exit::Succeeded, &[CLONED]);
    assert_eq!(found(&s), CLONED);
    assert_eq!(said, vec![format!("[info] cloning {REPO_URL} into /h/ardi-skill")]);
    assert_eq!(s.error(), None);
    assert_eq!(s.notice(), None);
    assert_eq!(s.git_args(), None);
}

#[test]
fn installer_searches_that_fail() {
    let (s, _) = search(None, None, &[], Exit::Succeeded, &[]);
    assert_eq!(s.error().unwrap(), "$HOME not set");
    let (s, _) = search(None, Some("/h"), &[], Exit::NotStarted("no git".to_string()), &[]);
    assert_eq!(s.error().unwrap(), "git clone failed to spawn: no git");
    let (s, _) = search(None, Some("/h"), &[], Exit::Failed(Some(128)), &[]);
    assert_eq!(
        s.error().unwrap(),
        "git clone https://github.com/awp-worknet/ardi-skill failed (exit 128). Install git and re-run, or clone manually then re-run."
    );
    let (s, _) = search(None, Some("/h"), &[], Exit::Failed(None), &[]);
    assert!(s.error().unwrap().contains("failed (exit -1)"));
    let (s, _) = search(None, Some("/h"), &[], Exit::Succeeded, &[]);
    assert_eq!(
        s.error().unwrap(),
        "after clone, expected /h/ardi-skill/tools/auto-mine/install.sh to exist but it does not"
    );
}

#[test]
fn an_unfitting_answer_changes_nothing() {
    let s = InstallerSearch::start().step(Seen::Ran(Exit::Succeeded));
    assert!(matches!(s, InstallerSearch::ReadOverride));
}

#[test]
fn only_linux_is_supported() {
    assert!(preflight(true).is_none());
    match preflight(false).unwrap() {
        Output::Error { message, code, category, retryable, suggestion, internal } => {
            assert_eq!(message, "auto-mine daemon is Linux-only today (uses systemd user units).");
            assert_eq!(code, "AUTOMINE_UNSUPPORTED_OS");
            assert_eq!(category, "platform");
            assert!(!retryable);
            assert!(suggestion.starts_with("Run on a Linux host"));
            assert_eq!(internal.next_action, "manual_cycle");
            assert_eq!(internal.next_command.as_deref(), Some("ardi-agent context"));
            assert_eq!(internal.progress, None);
        }
        Output::Success { .. } => panic!("expected an error"),
    }
}

#[test]
fn an_installer_that_cannot_start() {
    assert_eq!(running_line("/i"), "[info] running installer: /i");
    let e = conclude("/i", Exit::NotStarted("no bash".to_string()), "x").unwrap_err();
    assert_eq!(e, "failed to exec /i: no bash");
}

#[test]
fn an_installer_that_fails() {
    for (given, code, action, start) in [
        (Some(64), "64", "install_runtime_cli", "No supported runtime CLI found on PATH. Install one of: hermes, openclaw — then re-run `ardi-agent auto-mine`."),
        (Some(65), "65", "fix_path", "ardi-agent itself is missing from PATH"),
        (Some(66), "66", "manual_cycle", "systemd is not available"),
        (Some(1), "1", "retry", "Installer failed."),
        (None, "-1", "retry", "Installer failed."),
    ] {
        match conclude("/i", Exit::Failed(given), "hermes, openclaw").unwrap() {
            Output::Error { message, code: kind, category, retryable, suggestion, internal } => {
                assert_eq!(message, format!("auto-mine installer exited with code {code}"));
                assert_eq!(kind, "AUTOMINE_INSTALL_FAILED");
                assert_eq!(category, "installer");
                assert!(retryable);
                assert!(suggestion.starts_with(start));
                assert_eq!(internal.next_action, action);
                assert_eq!(internal.next_command, None);
            }
            Output::Success { .. } => panic!("expected an error"),
        }
    }
}

#[test]
fn an_installer_that_succeeds() {
    match conclude("/i", Exit::Succeeded, "x").unwrap() {
        Output::Success { message, data, internal } => {
            assert!(message.starts_with("auto-mine installed and timer started."));
            assert_eq!(data.installer, "/i");
            assert_eq!(data.status_command, "~/.local/share/ardi-auto-mine/status.sh");
            assert_eq!(data.stop_command, "~/.local/share/ardi-auto-mine/stop.sh");
            assert_eq!(internal.next_action, "monitor");
            assert_eq!(
                internal.next_command.as_deref(),
                Some("bash ~/.local/share/ardi-auto-mine/status.sh")
            );
        }
        Output::Error { .. } => panic!("expected success"),
    }
}
