//! The installer of the unattended mining daemon: which one to run, and what to say
//! of how it went.
//!
//! The installer is looked for in this order: the variable
//! `ARDI_AUTOMINE_INSTALLER`; the installed copy, so that a second run refreshes the
//! install; a clone of the repository below the home; a fresh clone. The daemon is for
//! Linux only, so paths are written as there.

use vstd::prelude::*;

use crate::output::{Installed, Internal, Output};
use crate::paths::{join, PathStyle};
use crate::probe::{code_or_minus_one, Exit, Seen};
use crate::text::decimal_i32;

verus! {

/// Where a fresh clone comes from.
pub const REPO_URL: &'static str = "https://github.com/awp-worknet/ardi-skill";

/// The search for the installer: what it waits for, or how it ended.
#[derive(Clone, Debug)]
pub enum InstallerSearch<P> {
    /// The variable `ARDI_AUTOMINE_INSTALLER`.
    ReadOverride,
    /// Whether this file, which the variable names, is there.
    ProbeOverride(P),
    /// The variable `HOME`.
    ReadHome,
    /// Whether the installed copy is there, below this home.
    ProbeInstalled(P),
    /// Whether a clone is there, below this home.
    ProbeCloned(P),
    /// The clone below this home is to be brought up to date.
    Pull(P),
    /// The repository is to be cloned below this home.
    Clone(P),
    /// Whether the fresh clone below this home has the installer.
    ProbeFresh(P),
    Found(P),
    NoHome,
    /// The clone could not be started, for this reason.
    CloneNotStarted(P),
    /// The clone failed with this exit code.
    CloneFailed(Option<i32>),
    /// The fresh clone lacks this file.
    FreshLacks(P),
}

impl View for InstallerSearch<String> {
    type V = InstallerSearch<Seq<char>>;

    open spec fn view(&self) -> InstallerSearch<Seq<char>> {
        match *self {
            InstallerSearch::ReadOverride => InstallerSearch::ReadOverride,
            InstallerSearch::ProbeOverride(p) => InstallerSearch::ProbeOverride(p@),
            InstallerSearch::ReadHome => InstallerSearch::ReadHome,
            InstallerSearch::ProbeInstalled(p) => InstallerSearch::ProbeInstalled(p@),
            InstallerSearch::ProbeCloned(p) => InstallerSearch::ProbeCloned(p@),
            InstallerSearch::Pull(p) => InstallerSearch::Pull(p@),
            InstallerSearch::Clone(p) => InstallerSearch::Clone(p@),
            InstallerSearch::ProbeFresh(p) => InstallerSearch::ProbeFresh(p@),
            InstallerSearch::Found(p) => InstallerSearch::Found(p@),
            InstallerSearch::NoHome => InstallerSearch::NoHome,
            InstallerSearch::CloneNotStarted(p) => InstallerSearch::CloneNotStarted(p@),
            InstallerSearch::CloneFailed(code) => InstallerSearch::CloneFailed(code),
            InstallerSearch::FreshLacks(p) => InstallerSearch::FreshLacks(p@),
        }
    }
}

/// The installed copy, below a home.
pub open spec fn installed_installer(home: Seq<char>) -> Seq<char> {
    crate::paths::joined(PathStyle::Posix, home, ".local/share/ardi-auto-mine/install.sh"@)
}

/// The directory of the clone, below a home.
pub open spec fn clone_dir(home: Seq<char>) -> Seq<char> {
    crate::paths::joined(PathStyle::Posix, home, "ardi-skill"@)
}

/// The installer in the clone below a home.
pub open spec fn cloned_installer(home: Seq<char>) -> Seq<char> {
    crate::paths::joined(PathStyle::Posix, clone_dir(home), "tools/auto-mine/install.sh"@)
}

impl InstallerSearch<Seq<char>> {
    /// The file that is to be looked for.
    pub open spec fn probed(self) -> Option<Seq<char>> {
        match self {
            InstallerSearch::ProbeOverride(file) => Some(file),
            InstallerSearch::ProbeInstalled(home) => Some(installed_installer(home)),
            InstallerSearch::ProbeCloned(home) => Some(cloned_installer(home)),
            InstallerSearch::ProbeFresh(home) => Some(cloned_installer(home)),
            _ => None,
        }
    }

    /// The search after `seen`. A clone that is already there is used whether or not it
    /// could be brought up to date. What does not answer the question that is open
    /// leaves it open.
    pub open spec fn after(self, seen: Seen<Seq<char>>) -> InstallerSearch<Seq<char>> {
        match (self, seen) {
            (InstallerSearch::ReadOverride, Seen::Var(Some(file))) =>
                InstallerSearch::ProbeOverride(file),
            (InstallerSearch::ReadOverride, Seen::Var(None)) => InstallerSearch::ReadHome,
            (InstallerSearch::ProbeOverride(file), Seen::Present(yes)) => if yes {
                InstallerSearch::Found(file)
            } else {
                InstallerSearch::ReadHome
            },
            (InstallerSearch::ReadHome, Seen::Var(Some(home))) =>
                InstallerSearch::ProbeInstalled(home),
            (InstallerSearch::ReadHome, Seen::Var(None)) => InstallerSearch::NoHome,
            (InstallerSearch::ProbeInstalled(home), Seen::Present(yes)) => if yes {
                InstallerSearch::Found(installed_installer(home))
            } else {
                InstallerSearch::ProbeCloned(home)
            },
            (InstallerSearch::ProbeCloned(home), Seen::Present(yes)) => if yes {
                InstallerSearch::Pull(home)
            } else {
                InstallerSearch::Clone(home)
            },
            (InstallerSearch::Pull(home), Seen::Ran(_)) => InstallerSearch::Found(
                cloned_installer(home),
            ),
            (InstallerSearch::Clone(home), Seen::Ran(exit)) => match exit {
                Exit::NotStarted(cause) => InstallerSearch::CloneNotStarted(cause),
                Exit::Succeeded => InstallerSearch::ProbeFresh(home),
                Exit::Failed(code) => InstallerSearch::CloneFailed(code),
            },
            (InstallerSearch::ProbeFresh(home), Seen::Present(yes)) => if yes {
                InstallerSearch::Found(cloned_installer(home))
            } else {
                InstallerSearch::FreshLacks(cloned_installer(home))
            },
            _ => self,
        }
    }

    /// The failure that ended the search, as text.
    pub open spec fn error_text(self) -> Option<Seq<char>> {
        match self {
            InstallerSearch::NoHome => Some("$HOME not set"@),
            InstallerSearch::CloneNotStarted(cause) => Some(
                "git clone failed to spawn: "@ + cause,
            ),
            InstallerSearch::CloneFailed(code) => Some(
                "git clone "@ + REPO_URL@ + " failed (exit "@ + crate::text::signed_decimal(
                    crate::probe::reported_code(code) as int,
                ) + "). Install git and re-run, or clone manually then re-run."@,
            ),
            InstallerSearch::FreshLacks(file) => Some(
                "after clone, expected "@ + file + " to exist but it does not"@,
            ),
            _ => None,
        }
    }

    /// The arguments that git is to be run with.
    pub open spec fn git_command(self) -> Option<Seq<Seq<char>>> {
        match self {
            InstallerSearch::Pull(home) => Some(
                seq!["-C"@, clone_dir(home), "pull"@, "--ff-only"@, "--quiet"@],
            ),
            InstallerSearch::Clone(home) => Some(
                seq!["clone"@, "--depth"@, "1"@, REPO_URL@, clone_dir(home)],
            ),
            _ => None,
        }
    }

    /// What is said when git is about to run, as text.
    pub open spec fn notice_text(self) -> Option<Seq<char>> {
        match self {
            InstallerSearch::Pull(home) => Some("[info] refreshing "@ + clone_dir(home)),
            InstallerSearch::Clone(home) => Some(
                "[info] cloning "@ + REPO_URL@ + " into "@ + clone_dir(home),
            ),
            _ => None,
        }
    }
}

impl InstallerSearch<String> {
    /// The search before anything is known.
    pub fn start() -> (r: InstallerSearch<String>)
        ensures
            r@ == InstallerSearch::<Seq<char>>::ReadOverride,
    {
        InstallerSearch::ReadOverride
    }

    /// The file that is to be looked for.
    pub fn probe(&self) -> (r: Option<String>)
        ensures
            crate::paths::opt_view(r) == self@.probed(),
    {
        match self {
            InstallerSearch::ProbeOverride(file) => Some(file.clone()),
            InstallerSearch::ProbeInstalled(home) => Some(installed_path(home.as_str())),
            InstallerSearch::ProbeCloned(home) => Some(cloned_path(home.as_str())),
            InstallerSearch::ProbeFresh(home) => Some(cloned_path(home.as_str())),
            _ => None,
        }
    }

    /// The arguments that git is to be run with.
    pub fn git_args(&self) -> (r: Option<Vec<String>>)
        ensures
            r is Some <==> self@.git_command() is Some,
            r matches Some(args) ==> crate::text::texts(args@) == self@.git_command()->0,
            r is Some <==> *self is Pull || *self is Clone,
            *self matches InstallerSearch::Pull(home) ==> {
                &&& r->0@.len() == 5
                &&& r->0@[0]@ == "-C"@
                &&& r->0@[1]@ == clone_dir(home@)
                &&& r->0@[2]@ == "pull"@
                &&& r->0@[3]@ == "--ff-only"@
                &&& r->0@[4]@ == "--quiet"@
            },
            *self matches InstallerSearch::Clone(home) ==> {
                &&& r->0@.len() == 5
                &&& r->0@[0]@ == "clone"@
                &&& r->0@[1]@ == "--depth"@
                &&& r->0@[2]@ == "1"@
                &&& r->0@[3]@ == "https://github.com/awp-worknet/ardi-skill"@
                &&& r->0@[4]@ == clone_dir(home@)
            },
    {
        let mut args: Vec<String> = Vec::new();
        match self {
            InstallerSearch::Pull(home) => {
                args.push("-C".to_string());
                args.push(clone_path(home.as_str()));
                args.push("pull".to_string());
                args.push("--ff-only".to_string());
                args.push("--quiet".to_string());
            },
            InstallerSearch::Clone(home) => {
                args.push("clone".to_string());
                args.push("--depth".to_string());
                args.push("1".to_string());
                args.push(REPO_URL.to_string());
                args.push(clone_path(home.as_str()));
            },
            _ => {
                return None;
            },
        }
        assert(crate::text::texts(args@) =~= self@.git_command()->0);
        Some(args)
    }

    /// The search after `seen`.
    pub fn step(self, seen: Seen<String>) -> (r: InstallerSearch<String>)
        ensures
            r@ == self@.after(seen@),
    {
        match (self, seen) {
            (InstallerSearch::ReadOverride, Seen::Var(Some(file))) =>
                InstallerSearch::ProbeOverride(file),
            (InstallerSearch::ReadOverride, Seen::Var(None)) => InstallerSearch::ReadHome,
            (InstallerSearch::ProbeOverride(file), Seen::Present(yes)) => {
                if yes {
                    InstallerSearch::Found(file)
                } else {
                    InstallerSearch::ReadHome
                }
            },
            (InstallerSearch::ReadHome, Seen::Var(Some(home))) =>
                InstallerSearch::ProbeInstalled(home),
            (InstallerSearch::ReadHome, Seen::Var(None)) => InstallerSearch::NoHome,
            (InstallerSearch::ProbeInstalled(home), Seen::Present(yes)) => {
                if yes {
                    InstallerSearch::Found(installed_path(home.as_str()))
                } else {
                    InstallerSearch::ProbeCloned(home)
                }
            },
            (InstallerSearch::ProbeCloned(home), Seen::Present(yes)) => {
                if yes {
                    InstallerSearch::Pull(home)
                } else {
                    InstallerSearch::Clone(home)
                }
            },
            (InstallerSearch::Pull(home), Seen::Ran(_)) => InstallerSearch::Found(
                cloned_path(home.as_str()),
            ),
            (InstallerSearch::Clone(home), Seen::Ran(exit)) => match exit {
                Exit::NotStarted(cause) => InstallerSearch::CloneNotStarted(cause),
                Exit::Succeeded => InstallerSearch::ProbeFresh(home),
                Exit::Failed(code) => InstallerSearch::CloneFailed(code),
            },
            (InstallerSearch::ProbeFresh(home), Seen::Present(yes)) => {
                if yes {
                    InstallerSearch::Found(cloned_path(home.as_str()))
                } else {
                    InstallerSearch::FreshLacks(cloned_path(home.as_str()))
                }
            },
            (search, _) => search,
        }
    }

    /// The failure that ended the search.
    pub fn error(&self) -> (r: Option<String>)
        ensures
            crate::paths::opt_view(r) == self@.error_text(),
            r is Some <==> *self is NoHome || *self is CloneNotStarted || *self is CloneFailed
                || *self is FreshLacks,
            *self is NoHome ==> r->0@ == "$HOME not set"@,
            *self matches InstallerSearch::CloneNotStarted(cause) ==> r->0@
                == "git clone failed to spawn: "@ + cause@,
            *self matches InstallerSearch::CloneFailed(code) ==> r->0@ == "git clone "@
                + "https://github.com/awp-worknet/ardi-skill"@ + " failed (exit "@
                + crate::text::signed_decimal(
                match code {
                    Some(c) => c as int,
                    None => -1,
                },
            ) + "). Install git and re-run, or clone manually then re-run."@,
            *self matches InstallerSearch::FreshLacks(file) ==> r->0@ == "after clone, expected "@
                + file@ + " to exist but it does not"@,
    {
        match self {
            InstallerSearch::NoHome => Some("$HOME not set".to_string()),
            InstallerSearch::CloneNotStarted(cause) => Some(
                "git clone failed to spawn: ".to_string().concat(cause.as_str()),
            ),
            InstallerSearch::CloneFailed(code) => Some(
                "git clone ".to_string().concat(REPO_URL).concat(" failed (exit ").concat(
                    decimal_i32(code_or_minus_one(*code)).as_str(),
                ).concat("). Install git and re-run, or clone manually then re-run."),
            ),
            InstallerSearch::FreshLacks(file) => Some(
                "after clone, expected ".to_string().concat(file.as_str()).concat(
                    " to exist but it does not",
                ),
            ),
            _ => None,
        }
    }

    /// What is said when git is about to run.
    pub fn notice(&self) -> (r: Option<String>)
        ensures
            crate::paths::opt_view(r) == self@.notice_text(),
            r is Some <==> *self is Pull || *self is Clone,
            *self matches InstallerSearch::Pull(home) ==> r->0@ == "[info] refreshing "@
                + clone_dir(home@),
            *self matches InstallerSearch::Clone(home) ==> r->0@ == "[info] cloning "@
                + "https://github.com/awp-worknet/ardi-skill"@ + " into "@ + clone_dir(home@),
    {
        match self {
            InstallerSearch::Pull(home) => Some(
                "[info] refreshing ".to_string().concat(
                    clone_path(home.as_str()).as_str(),
                ),
            ),
            InstallerSearch::Clone(home) => Some(
                "[info] cloning ".to_string().concat(REPO_URL).concat(" into ").concat(
                    clone_path(home.as_str()).as_str(),
                ),
            ),
            _ => None,
        }
    }
}

fn installed_path(home: &str) -> (r: String)
    ensures
        r@ == installed_installer(home@),
{
    proof {
        reveal_strlit(".local/share/ardi-auto-mine/install.sh");
    }
    join(PathStyle::Posix, home, ".local/share/ardi-auto-mine/install.sh")
}

fn clone_path(home: &str) -> (r: String)
    ensures
        r@ == clone_dir(home@),
{
    proof {
        reveal_strlit("ardi-skill");
    }
    join(PathStyle::Posix, home, "ardi-skill")
}

fn cloned_path(home: &str) -> (r: String)
    ensures
        r@ == cloned_installer(home@),
{
    proof {
        reveal_strlit("tools/auto-mine/install.sh");
    }
    join(PathStyle::Posix, clone_path(home).as_str(), "tools/auto-mine/install.sh")
}

/// Where the installer is looked for and where the repository is cloned to, component by
/// component below the home.
pub proof fn law_installer_places(home: Seq<char>)
    ensures
        ({
            let below = crate::paths::components(PathStyle::Posix, home);
            &&& InstallerSearch::ProbeInstalled(home).probed() matches Some(file)
                && crate::paths::components(PathStyle::Posix, file) == below + seq![
                ".local"@,
                "share"@,
                "ardi-auto-mine"@,
                "install.sh"@,
            ]
            &&& InstallerSearch::ProbeCloned(home).probed() matches Some(file)
                && crate::paths::components(PathStyle::Posix, file) == below + seq![
                "ardi-skill"@,
                "tools"@,
                "auto-mine"@,
                "install.sh"@,
            ]
            &&& InstallerSearch::ProbeInstalled(home).probed() == Some(
                crate::paths::joined(
                    PathStyle::Posix,
                    home,
                    ".local/share/ardi-auto-mine/install.sh"@,
                ),
            )
            &&& InstallerSearch::ProbeCloned(home).probed() == Some(
                crate::paths::joined(
                    PathStyle::Posix,
                    clone_dir(home),
                    "tools/auto-mine/install.sh"@,
                ),
            )
            &&& clone_dir(home) == crate::paths::joined(PathStyle::Posix, home, "ardi-skill"@)
            &&& InstallerSearch::ProbeFresh(home).probed() == InstallerSearch::ProbeCloned(
                home,
            ).probed()
            &&& crate::paths::components(PathStyle::Posix, clone_dir(home)) == below.push(
                "ardi-skill"@,
            )
        }),
{
    let style = PathStyle::Posix;
    let below = crate::paths::components(style, home);
    reveal_strlit("ardi-skill");
    crate::paths::law_joined_components(style, home, "ardi-skill"@);
    crate::paths::lemma_one_component(style, "ardi-skill"@);
    assert(below + seq!["ardi-skill"@] =~= below.push("ardi-skill"@));
    lemma_installed_components();
    crate::paths::law_joined_components(style, home, ".local/share/ardi-auto-mine/install.sh"@);
    lemma_tools_components();
    crate::paths::law_joined_components(style, clone_dir(home), "tools/auto-mine/install.sh"@);
    assert(below.push("ardi-skill"@) + seq!["tools"@, "auto-mine"@, "install.sh"@] =~= below
        + seq!["ardi-skill"@, "tools"@, "auto-mine"@, "install.sh"@]);
}

proof fn lemma_installed_components()
    ensures
        crate::paths::components(PathStyle::Posix, ".local/share/ardi-auto-mine/install.sh"@)
            == seq![".local"@, "share"@, "ardi-auto-mine"@, "install.sh"@],
{
    let style = PathStyle::Posix;
    reveal_strlit(".local/share/ardi-auto-mine/install.sh");
    reveal_strlit(".local");
    reveal_strlit("share");
    reveal_strlit("ardi-auto-mine");
    reveal_strlit("install.sh");
    let rest = "share"@.push('/') + "ardi-auto-mine"@.push('/') + "install.sh"@;
    crate::paths::lemma_three_components(style, "share"@, "ardi-auto-mine"@, "install.sh"@);
    crate::paths::lemma_first_component(style, ".local"@, rest);
    assert(".local/share/ardi-auto-mine/install.sh"@ =~= ".local"@.push('/') + rest);
    assert(seq![".local"@] + seq!["share"@, "ardi-auto-mine"@, "install.sh"@] =~= seq![
        ".local"@,
        "share"@,
        "ardi-auto-mine"@,
        "install.sh"@,
    ]);
}

proof fn lemma_tools_components()
    ensures
        crate::paths::components(PathStyle::Posix, "tools/auto-mine/install.sh"@) == seq![
            "tools"@,
            "auto-mine"@,
            "install.sh"@,
        ],
{
    reveal_strlit("tools/auto-mine/install.sh");
    reveal_strlit("tools");
    reveal_strlit("auto-mine");
    reveal_strlit("install.sh");
    assert("tools/auto-mine/install.sh"@ =~= "tools"@.push('/') + "auto-mine"@.push('/')
        + "install.sh"@);
    crate::paths::lemma_three_components(
        PathStyle::Posix,
        "tools"@,
        "auto-mine"@,
        "install.sh"@,
    );
}

/// What is found is what was looked for. A search ends with a file only where it has just
/// asked for that very file and was told that it is there, or where the clone has just
/// been brought up to date, well or not, in which it had found that file before. Only the
/// clone that is there is not taken at once.
pub proof fn law_found_installer_was_there(
    search: InstallerSearch<Seq<char>>,
    seen: Seen<Seq<char>>,
    file: Seq<char>,
)
    requires
        !(search is Found),
    ensures
        search.after(seen) == InstallerSearch::Found(file) <==> {
            ||| seen == Seen::<Seq<char>>::Present(true) && search.probed() == Some(file)
                && !(search is ProbeCloned)
            ||| seen is Ran && (search matches InstallerSearch::Pull(home)
                && InstallerSearch::ProbeCloned(home).probed() == Some(file))
        },
        search.after(seen) matches InstallerSearch::Pull(home) ==> search
            == InstallerSearch::Pull(home) || search == InstallerSearch::ProbeCloned(home)
            && seen == Seen::<Seq<char>>::Present(true),
{
}

/// A search takes one question after the other, in the order of places; what it has
/// learned goes into the next question unchanged, and an answer that does not fit the open
/// question changes nothing.
pub proof fn law_installer_search_steps(
    text: Seq<char>,
    code: Option<i32>,
    search: InstallerSearch<Seq<char>>,
    seen: Seen<Seq<char>>,
)
    ensures
        InstallerSearch::ReadOverride.after(Seen::Var(Some(text)))
            == InstallerSearch::ProbeOverride(text),
        InstallerSearch::ReadOverride.after(Seen::Var(None)) is ReadHome,
        InstallerSearch::ProbeOverride(text).after(Seen::Present(false)) is ReadHome,
        InstallerSearch::ReadHome.after(Seen::Var(Some(text)))
            == InstallerSearch::ProbeInstalled(text),
        InstallerSearch::ReadHome.after(Seen::Var(None)) is NoHome,
        InstallerSearch::ProbeInstalled(text).after(Seen::Present(false))
            == InstallerSearch::ProbeCloned(text),
        InstallerSearch::ProbeCloned(text).after(Seen::Present(true)) == InstallerSearch::Pull(
            text,
        ),
        InstallerSearch::ProbeCloned(text).after(Seen::Present(false))
            == InstallerSearch::Clone(text),
        InstallerSearch::Clone(text).after(Seen::Ran(Exit::Succeeded))
            == InstallerSearch::ProbeFresh(text),
        InstallerSearch::Clone(text).after(Seen::Ran(Exit::Failed(code)))
            == InstallerSearch::<Seq<char>>::CloneFailed(code),
        search is Clone ==> search.after(Seen::Ran(Exit::NotStarted(text)))
            == InstallerSearch::CloneNotStarted(text),
        InstallerSearch::ProbeFresh(text).after(Seen::Present(false)) matches
            InstallerSearch::FreshLacks(file) && Some(file) == InstallerSearch::ProbeFresh(
            text,
        ).probed(),
        search is Found || search is NoHome || search is CloneNotStarted || search is CloneFailed
            || search is FreshLacks ==> search.after(seen) == search,
        search is ReadOverride || search is ReadHome ==> (seen is Var || search.after(seen)
            == search),
        search is Pull || search is Clone ==> (seen is Ran || search.after(seen) == search),
        search.probed() is Some ==> (seen is Present || search.after(seen) == search),
        InstallerSearch::ProbeOverride(text).probed() == Some(text),
        search.probed() is Some <==> search is ProbeOverride || search is ProbeInstalled
            || search is ProbeCloned || search is ProbeFresh,
{
}

/// The view of a search keeps what it is about.
pub proof fn law_installer_search_view(search: InstallerSearch<String>)
    ensures
        search matches InstallerSearch::ProbeOverride(p) ==> search@
            == InstallerSearch::ProbeOverride(p@),
        search matches InstallerSearch::ProbeInstalled(p) ==> search@
            == InstallerSearch::ProbeInstalled(p@),
        search matches InstallerSearch::ProbeCloned(p) ==> search@
            == InstallerSearch::ProbeCloned(p@),
        search matches InstallerSearch::Pull(p) ==> search@ == InstallerSearch::Pull(p@),
        search matches InstallerSearch::Clone(p) ==> search@ == InstallerSearch::Clone(p@),
        search matches InstallerSearch::ProbeFresh(p) ==> search@ == InstallerSearch::ProbeFresh(
            p@,
        ),
        search matches InstallerSearch::Found(p) ==> search@ == InstallerSearch::Found(p@),
        search matches InstallerSearch::CloneNotStarted(p) ==> search@
            == InstallerSearch::CloneNotStarted(p@),
        search matches InstallerSearch::CloneFailed(code) ==> search@ == InstallerSearch::<
            Seq<char>,
        >::CloneFailed(code),
        search matches InstallerSearch::FreshLacks(p) ==> search@ == InstallerSearch::FreshLacks(
            p@,
        ),
        search is ReadOverride <==> search@ is ReadOverride,
        search is ReadHome <==> search@ is ReadHome,
        search is NoHome <==> search@ is NoHome,
{
}

/// What a search can come upon.
pub struct Surroundings {
    /// The value of `ARDI_AUTOMINE_INSTALLER`.
    pub override_file: Option<Seq<char>>,
    /// The value of `HOME`.
    pub home: Option<Seq<char>>,
    /// The files that are there at first.
    pub is_file: spec_fn(Seq<char>) -> bool,
    /// The files that are there after a fresh clone.
    pub is_file_after_clone: spec_fn(Seq<char>) -> bool,
    /// How bringing the clone up to date ends.
    pub pull: Exit<Seq<char>>,
    /// How a fresh clone ends.
    pub clone: Exit<Seq<char>>,
}

impl Surroundings {
    /// The answer to the question that `search` has open.
    pub open spec fn answer(self, search: InstallerSearch<Seq<char>>) -> Seen<Seq<char>> {
        match search {
            InstallerSearch::ReadOverride => Seen::Var(self.override_file),
            InstallerSearch::ReadHome => Seen::Var(self.home),
            InstallerSearch::Pull(_) => Seen::Ran(self.pull),
            InstallerSearch::Clone(_) => Seen::Ran(self.clone),
            InstallerSearch::ProbeFresh(home) => Seen::Present(
                (self.is_file_after_clone)(cloned_installer(home)),
            ),
            _ => match search.probed() {
                Some(file) => Seen::Present((self.is_file)(file)),
                None => Seen::Present(false),
            },
        }
    }

    /// `search` after `n` answers.
    pub open spec fn drive(
        self,
        search: InstallerSearch<Seq<char>>,
        n: nat,
    ) -> InstallerSearch<Seq<char>>
        decreases n,
    {
        if n == 0 {
            search
        } else {
            self.drive(search.after(self.answer(search)), (n - 1) as nat)
        }
    }

    /// What git is run with while `search` gets `n` answers, one command after the other.
    pub open spec fn commands(
        self,
        search: InstallerSearch<Seq<char>>,
        n: nat,
    ) -> Seq<Seq<Seq<char>>>
        decreases n,
    {
        if n == 0 {
            Seq::empty()
        } else {
            let rest = self.commands(search.after(self.answer(search)), (n - 1) as nat);
            match search.git_command() {
                Some(args) => seq![args] + rest,
                None => rest,
            }
        }
    }

    /// How the search ends: with the override, where it is set and is a file; else,
    /// below the home, with the installed copy, with the clone that is there, or with
    /// what a fresh clone brings.
    pub open spec fn resolved(self) -> InstallerSearch<Seq<char>> {
        if self.override_file is Some && (self.is_file)(self.override_file->0) {
            InstallerSearch::Found(self.override_file->0)
        } else if self.home is None {
            InstallerSearch::NoHome
        } else {
            let cloned = cloned_installer(self.home->0);
            if (self.is_file)(installed_installer(self.home->0)) {
                InstallerSearch::Found(installed_installer(self.home->0))
            } else if (self.is_file)(cloned) {
                InstallerSearch::Found(cloned)
            } else {
                match self.clone {
                    Exit::NotStarted(cause) => InstallerSearch::CloneNotStarted(cause),
                    Exit::Failed(code) => InstallerSearch::CloneFailed(code),
                    Exit::Succeeded => if (self.is_file_after_clone)(cloned) {
                        InstallerSearch::Found(cloned)
                    } else {
                        InstallerSearch::FreshLacks(cloned)
                    },
                }
            }
        }
    }
}

/// Whatever the surroundings, seven answers settle the search, and it ends with the
/// installer that comes first in the order of places.
pub proof fn law_installer_search_resolves(s: Surroundings)
    ensures
        s.drive(InstallerSearch::ReadOverride, 7) == s.resolved(),
{
    reveal_with_fuel(Surroundings::drive, 8);
}

/// A search runs git at most once: not at all where the override or the installed copy
/// is there or the home is not known; to bring a clone up to date where one is there;
/// and else for a fresh clone. No further answer adds a command.
pub proof fn law_installer_search_commands(s: Surroundings, n: nat)
    requires
        n >= 7,
    ensures
        s.commands(InstallerSearch::ReadOverride, n) == ({
            let installed = installed_installer(s.home->0);
            let cloned = cloned_installer(s.home->0);
            if s.override_file is Some && (s.is_file)(s.override_file->0) || s.home is None || (
            s.is_file)(installed) {
                Seq::<Seq<Seq<char>>>::empty()
            } else if (s.is_file)(cloned) {
                seq![seq!["-C"@, clone_dir(s.home->0), "pull"@, "--ff-only"@, "--quiet"@]]
            } else {
                seq![seq!["clone"@, "--depth"@, "1"@, REPO_URL@, clone_dir(s.home->0)]]
            }
        }),
{
    reveal_with_fuel(Surroundings::commands, 8);
    reveal_with_fuel(Surroundings::drive, 8);
    law_installer_search_resolves(s);
    lemma_no_command_after_end(s, s.resolved(), (n - 7) as nat);
}

proof fn lemma_no_command_after_end(s: Surroundings, search: InstallerSearch<Seq<char>>, n: nat)
    requires
        search is Found || search.error_text() is Some,
    ensures
        s.commands(search, n) == Seq::<Seq<Seq<char>>>::empty(),
    decreases n,
{
    if n > 0 {
        lemma_no_command_after_end(s, search.after(s.answer(search)), (n - 1) as nat);
    }
}

/// The document for a platform without the service manager that the daemon needs.
pub open spec fn unsupported_platform() -> Output<Seq<char>> {
    Output::Error {
        message: "auto-mine daemon is Linux-only today (uses systemd user units)."@,
        code: "AUTOMINE_UNSUPPORTED_OS"@,
        category: "platform"@,
        retryable: false,
        suggestion:
            "Run on a Linux host (VPS / Raspberry Pi / WSL2). On macOS / Windows, drive the cycle interactively via `ardi-agent context`."@,
        internal: Internal {
            next_action: "manual_cycle"@,
            next_command: Some("ardi-agent context"@),
            progress: None,
        },
    }
}

/// What to print instead of installing: nothing on Linux, and elsewhere that the
/// platform is not supported.
pub fn preflight(is_linux: bool) -> (r: Option<Output<String>>)
    ensures
        r is None <==> is_linux,
        r matches Some(o) ==> o@ == unsupported_platform(),
        r matches Some(o) ==> {
            &&& o matches Output::Error {
                message,
                code,
                category,
                retryable,
                suggestion,
                internal,
            }
            &&& message@ == "auto-mine daemon is Linux-only today (uses systemd user units)."@
            &&& code@ == "AUTOMINE_UNSUPPORTED_OS"@
            &&& category@ == "platform"@
            &&& !retryable
            &&& suggestion@
                == "Run on a Linux host (VPS / Raspberry Pi / WSL2). On macOS / Windows, drive the cycle interactively via `ardi-agent context`."@
            &&& internal.next_action@ == "manual_cycle"@
            &&& internal.next_command is Some
            &&& internal.next_command->0@ == "ardi-agent context"@
            &&& internal.progress is None
        },
{
    if is_linux {
        return None;
    }
    Some(
        Output::Error {
            message: "auto-mine daemon is Linux-only today (uses systemd user units).".to_string(),
            code: "AUTOMINE_UNSUPPORTED_OS".to_string(),
            category: "platform".to_string(),
            retryable: false,
            suggestion:
                "Run on a Linux host (VPS / Raspberry Pi / WSL2). On macOS / Windows, drive the cycle interactively via `ardi-agent context`.".to_string(),
            internal: Internal {
                next_action: "manual_cycle".to_string(),
                next_command: Some("ardi-agent context".to_string()),
                progress: None,
            },
        },
    )
}

/// What is said when the installer is about to run.
pub fn running_line(installer: &str) -> (r: String)
    ensures
        r@ == "[info] running installer: "@ + installer@,
{
    "[info] running installer: ".to_string().concat(installer)
}

/// What to suggest, and the next action, for an exit code of the installer.
/// `runtimes` names the runtimes that the daemon can drive.
pub open spec fn advice_for(code: i32, runtimes: Seq<char>) -> (Seq<char>, Seq<char>) {
    if code == 64 {
        (
            "No supported runtime CLI found on PATH. Install one of: "@ + runtimes
                + " — then re-run `ardi-agent auto-mine`."@,
            "install_runtime_cli"@,
        )
    } else if code == 65 {
        (
            "ardi-agent itself is missing from PATH inside the install script's environment. Re-install ardi-agent system-wide and re-run."@,
            "fix_path"@,
        )
    } else if code == 66 {
        (
            "systemd is not available (typical inside containers without --systemd). Use a host with systemd or drive the cycle interactively."@,
            "manual_cycle"@,
        )
    } else {
        (
            "Installer failed. Re-run with bash -x for verbose output, or open an issue at github.com/awp-worknet/ardi-skill."@,
            "retry"@,
        )
    }
}

fn advice(code: i32, runtimes: &str) -> (r: (String, String))
    ensures
        (r.0@, r.1@) == advice_for(code, runtimes@),
{
    if code == 64 {
        (
            "No supported runtime CLI found on PATH. Install one of: ".to_string().concat(
                runtimes,
            ).concat(" — then re-run `ardi-agent auto-mine`."),
            "install_runtime_cli".to_string(),
        )
    } else if code == 65 {
        (
            "ardi-agent itself is missing from PATH inside the install script's environment. Re-install ardi-agent system-wide and re-run.".to_string(),
            "fix_path".to_string(),
        )
    } else if code == 66 {
        (
            "systemd is not available (typical inside containers without --systemd). Use a host with systemd or drive the cycle interactively.".to_string(),
            "manual_cycle".to_string(),
        )
    } else {
        (
            "Installer failed. Re-run with bash -x for verbose output, or open an issue at github.com/awp-worknet/ardi-skill.".to_string(),
            "retry".to_string(),
        )
    }
}

/// The document for an installer that failed with this exit code.
pub open spec fn install_failed(code: i32, runtimes: Seq<char>) -> Output<Seq<char>> {
    Output::Error {
        message: "auto-mine installer exited with code "@ + crate::text::signed_decimal(
            code as int,
        ),
        code: "AUTOMINE_INSTALL_FAILED"@,
        category: "installer"@,
        retryable: true,
        suggestion: advice_for(code, runtimes).0,
        internal: Internal {
            next_action: advice_for(code, runtimes).1,
            next_command: None,
            progress: None,
        },
    }
}

/// The document for an installer that succeeded.
pub open spec fn install_succeeded(installer: Seq<char>) -> Output<Seq<char>> {
    Output::Success {
        message:
            "auto-mine installed and timer started. Daemon will solve, commit, reveal, and inscribe each epoch unattended."@,
        data: Installed {
            installer,
            status_command: "~/.local/share/ardi-auto-mine/status.sh"@,
            stop_command: "~/.local/share/ardi-auto-mine/stop.sh"@,
        },
        internal: Internal {
            next_action: "monitor"@,
            next_command: Some("bash ~/.local/share/ardi-auto-mine/status.sh"@),
            progress: None,
        },
    }
}

/// What to print once the installer has run; an error, as text, where it could not be
/// started. `runtimes` names the runtimes that the daemon can drive.
pub fn conclude(
    installer: &str,
    exit: Exit<String>,
    runtimes: &str,
) -> (r: Result<Output<String>, String>)
    ensures
        r is Err <==> exit is NotStarted,
        exit@ matches Exit::NotStarted(cause) ==> r->Err_0@ == "failed to exec "@ + installer@
            + ": "@ + cause,
        exit is Succeeded ==> r->Ok_0@ == install_succeeded(installer@),
        exit matches Exit::Failed(code) ==> r->Ok_0@ == install_failed(
            crate::probe::reported_code(code),
            runtimes@,
        ),
        exit is Succeeded ==> {
            &&& r->Ok_0 matches Output::Success { message, data, internal }
            &&& message@
                == "auto-mine installed and timer started. Daemon will solve, commit, reveal, and inscribe each epoch unattended."@
            &&& data.installer@ == installer@
            &&& data.status_command@ == "~/.local/share/ardi-auto-mine/status.sh"@
            &&& data.stop_command@ == "~/.local/share/ardi-auto-mine/stop.sh"@
            &&& internal.next_action@ == "monitor"@
            &&& internal.next_command is Some
            &&& internal.next_command->0@ == "bash ~/.local/share/ardi-auto-mine/status.sh"@
            &&& internal.progress is None
        },
        exit matches Exit::Failed(ended) ==> {
            let number: int = match ended {
                Some(c) => c as int,
                None => -1,
            };
            &&& r->Ok_0 matches Output::Error {
                message,
                code,
                category,
                retryable,
                suggestion,
                internal,
            }
            &&& message@ == "auto-mine installer exited with code "@
                + crate::text::signed_decimal(number)
            &&& code@ == "AUTOMINE_INSTALL_FAILED"@
            &&& category@ == "installer"@
            &&& retryable
            &&& internal.next_command is None
            &&& internal.progress is None
            &&& number == 64 ==> {
                &&& internal.next_action@ == "install_runtime_cli"@
                &&& suggestion@ == "No supported runtime CLI found on PATH. Install one of: "@
                    + runtimes@ + " — then re-run `ardi-agent auto-mine`."@
            }
            &&& number == 65 ==> {
                &&& internal.next_action@ == "fix_path"@
                &&& suggestion@
                    == "ardi-agent itself is missing from PATH inside the install script's environment. Re-install ardi-agent system-wide and re-run."@
            }
            &&& number == 66 ==> {
                &&& internal.next_action@ == "manual_cycle"@
                &&& suggestion@
                    == "systemd is not available (typical inside containers without --systemd). Use a host with systemd or drive the cycle interactively."@
            }
            &&& !(64 <= number <= 66) ==> {
                &&& internal.next_action@ == "retry"@
                &&& suggestion@
                    == "Installer failed. Re-run with bash -x for verbose output, or open an issue at github.com/awp-worknet/ardi-skill."@
            }
        },
{
    match exit {
        Exit::NotStarted(cause) => Err(
            "failed to exec ".to_string().concat(installer).concat(": ").concat(cause.as_str()),
        ),
        Exit::Failed(code) => {
            let code: i32 = code_or_minus_one(code);
            let (suggestion, action) = advice(code, runtimes);
            Ok(
                Output::Error {
                    message: "auto-mine installer exited with code ".to_string().concat(
                        decimal_i32(code).as_str(),
                    ),
                    code: "AUTOMINE_INSTALL_FAILED".to_string(),
                    category: "installer".to_string(),
                    retryable: true,
                    suggestion,
                    internal: Internal {
                        next_action: action,
                        next_command: None,
                        progress: None,
                    },
                },
            )
        },
        Exit::Succeeded => Ok(
            Output::Success {
                message:
                    "auto-mine installed and timer started. Daemon will solve, commit, reveal, and inscribe each epoch unattended.".to_string(),
                data: Installed {
                    installer: installer.to_string(),
                    status_command: "~/.local/share/ardi-auto-mine/status.sh".to_string(),
                    stop_command: "~/.local/share/ardi-auto-mine/stop.sh".to_string(),
                },
                internal: Internal {
                    next_action: "monitor".to_string(),
                    next_command: Some(
                        "bash ~/.local/share/ardi-auto-mine/status.sh".to_string(),
                    ),
                    progress: None,
                },
            },
        ),
    }
}

} // verus!
