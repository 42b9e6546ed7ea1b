//! The foreground mining loop: one tick after the other, without a service manager.
//!
//! Only one tick runs at a time, and the child process must have ended before the
//! next tick is scheduled. A stop request lets the current tick finish and then ends
//! the loop.

use vstd::prelude::*;

use crate::paths::{join, PathStyle};
use crate::probe::{code_or_minus_one, Exit, Seen};
use crate::text::{decimal_i32, decimal_u64};

verus! {

/// Seconds between two ticks where the operator gives none.
pub const DEFAULT_INTERVAL_SEC: u64 = 90;

/// The least number of seconds between two ticks.
pub const MIN_INTERVAL_SEC: u64 = 30;

/// Seconds after which a loop that sleeps looks again whether a stop has been requested
/// or the next tick is due.
pub const POLL_SEC: u64 = 1;

/// The exit status after a second interrupt.
pub const INTERRUPT_STATUS: i32 = 130;

/// What the operator asked for.
#[derive(Clone, Copy, Debug)]
pub struct LoopArgs {
    pub interval_sec: Option<u64>,
    pub once: bool,
}

impl LoopArgs {
    /// Seconds between two ticks: the number asked for, or the default, and never less
    /// than the minimum.
    pub fn interval(&self) -> (r: u64)
        ensures
            r >= MIN_INTERVAL_SEC,
            self.interval_sec matches Some(s) ==> (s >= MIN_INTERVAL_SEC ==> r == s),
            self.interval_sec matches Some(s) ==> (s < MIN_INTERVAL_SEC ==> r
                == MIN_INTERVAL_SEC),
            self.interval_sec is None ==> r == DEFAULT_INTERVAL_SEC,
            r == if self.asked_interval() < MIN_INTERVAL_SEC {
                MIN_INTERVAL_SEC
            } else {
                self.asked_interval()
            },
    {
        let asked: u64 = match self.interval_sec {
            Some(s) => s,
            None => DEFAULT_INTERVAL_SEC,
        };
        if asked < MIN_INTERVAL_SEC {
            MIN_INTERVAL_SEC
        } else {
            asked
        }
    }

    /// The number of seconds asked for, or the default.
    pub open spec fn asked_interval(self) -> u64 {
        match self.interval_sec {
            Some(s) => s,
            None => DEFAULT_INTERVAL_SEC,
        }
    }
}

/// The number of seconds that the operator gives is taken as it is, whatever it is; where
/// none is given it is a minute and a half.
pub proof fn law_interval_is_as_asked(args: LoopArgs)
    ensures
        args.interval_sec matches Some(s) ==> args.asked_interval() == s,
        args.interval_sec is None ==> args.asked_interval() == 90,
{
}

/// The fixed times: half a minute at least between two ticks, a minute and a half where
/// none is asked for, and a look around every second.
pub proof fn law_fixed_times()
    ensures
        MIN_INTERVAL_SEC == 30,
        DEFAULT_INTERVAL_SEC == 90,
        POLL_SEC == 1,
{
}

/// The search for the directory of the installed scripts: what it waits for, or how
/// it ended.
#[derive(Clone, Debug)]
pub enum DirSearch<P> {
    /// The variable `ARDI_AUTOMINE_DIR`.
    ReadOverride,
    /// Whether this directory, which the variable names, is there.
    ProbeOverride(P),
    /// The variable `HOME`.
    ReadHome,
    /// Whether the installed scripts are there, below this home.
    ProbeInstalled(P),
    /// Whether a clone is there, below this home.
    ProbeCloned(P),
    Found(P),
    NoHome,
    NotInstalled,
}

impl View for DirSearch<String> {
    type V = DirSearch<Seq<char>>;

    open spec fn view(&self) -> DirSearch<Seq<char>> {
        match *self {
            DirSearch::ReadOverride => DirSearch::ReadOverride,
            DirSearch::ProbeOverride(p) => DirSearch::ProbeOverride(p@),
            DirSearch::ReadHome => DirSearch::ReadHome,
            DirSearch::ProbeInstalled(p) => DirSearch::ProbeInstalled(p@),
            DirSearch::ProbeCloned(p) => DirSearch::ProbeCloned(p@),
            DirSearch::Found(p) => DirSearch::Found(p@),
            DirSearch::NoHome => DirSearch::NoHome,
            DirSearch::NotInstalled => DirSearch::NotInstalled,
        }
    }
}

/// Where the scripts are installed, below a home.
pub open spec fn installed_dir(style: PathStyle, home: Seq<char>) -> Seq<char> {
    crate::paths::joined(style, home, ".local/share/ardi-auto-mine"@)
}

/// Where the scripts are in a clone, below a home.
pub open spec fn cloned_dir(style: PathStyle, home: Seq<char>) -> Seq<char> {
    crate::paths::joined(style, home, "ardi-skill/tools/auto-mine"@)
}

impl DirSearch<Seq<char>> {
    /// The directory that is to be looked for.
    pub open spec fn probed(self, style: PathStyle) -> Option<Seq<char>> {
        match self {
            DirSearch::ProbeOverride(dir) => Some(dir),
            DirSearch::ProbeInstalled(home) => Some(installed_dir(style, home)),
            DirSearch::ProbeCloned(home) => Some(cloned_dir(style, home)),
            _ => None,
        }
    }

    /// The search after `seen`. What does not answer the question that is open leaves
    /// it open.
    pub open spec fn after(self, style: PathStyle, seen: Seen<Seq<char>>) -> DirSearch<
        Seq<char>,
    > {
        match (self, seen) {
            (DirSearch::ReadOverride, Seen::Var(Some(dir))) => DirSearch::ProbeOverride(dir),
            (DirSearch::ReadOverride, Seen::Var(None)) => DirSearch::ReadHome,
            (DirSearch::ReadHome, Seen::Var(Some(home))) => DirSearch::ProbeInstalled(home),
            (DirSearch::ReadHome, Seen::Var(None)) => DirSearch::NoHome,
            (_, Seen::Present(true)) => match self.probed(style) {
                Some(dir) => DirSearch::Found(dir),
                None => self,
            },
            (DirSearch::ProbeOverride(_), Seen::Present(false)) => DirSearch::ReadHome,
            (DirSearch::ProbeInstalled(home), Seen::Present(false)) => DirSearch::ProbeCloned(
                home,
            ),
            (DirSearch::ProbeCloned(_), Seen::Present(false)) => DirSearch::NotInstalled,
            _ => self,
        }
    }

    /// What fixed surroundings answer to the question that is open.
    pub open spec fn answered(
        self,
        style: PathStyle,
        override_dir: Option<Seq<char>>,
        home: Option<Seq<char>>,
        is_dir: spec_fn(Seq<char>) -> bool,
    ) -> Seen<Seq<char>> {
        match self {
            DirSearch::ReadOverride => Seen::Var(override_dir),
            DirSearch::ReadHome => Seen::Var(home),
            _ => match self.probed(style) {
                Some(dir) => Seen::Present(is_dir(dir)),
                None => Seen::Present(false),
            },
        }
    }

    /// The search after `n` answers of fixed surroundings.
    pub open spec fn driven(
        self,
        style: PathStyle,
        override_dir: Option<Seq<char>>,
        home: Option<Seq<char>>,
        is_dir: spec_fn(Seq<char>) -> bool,
        n: nat,
    ) -> DirSearch<Seq<char>>
        decreases n,
    {
        if n == 0 {
            self
        } else {
            self.after(style, self.answered(style, override_dir, home, is_dir)).driven(
                style,
                override_dir,
                home,
                is_dir,
                (n - 1) as nat,
            )
        }
    }

    /// The failure that ended the search, as text.
    pub open spec fn error_text(self) -> Option<Seq<char>> {
        match self {
            DirSearch::NoHome => Some("$HOME not set"@),
            DirSearch::NotInstalled => Some(
                "auto-mine install dir not found. Run `ardi-agent auto-mine` first to install the runtime files (it now works on no-systemd hosts: it writes the env + scripts and prints `ardi-agent loop` instructions instead of starting a timer)."@,
            ),
            _ => None,
        }
    }
}

/// The directory of the scripts: the override, where it is set and is a directory;
/// else, below the home, the installed scripts before a clone.
pub open spec fn resolved_dir(
    style: PathStyle,
    override_dir: Option<Seq<char>>,
    home: Option<Seq<char>>,
    is_dir: spec_fn(Seq<char>) -> bool,
) -> DirSearch<Seq<char>> {
    if override_dir is Some && is_dir(override_dir->0) {
        DirSearch::Found(override_dir->0)
    } else if home is None {
        DirSearch::NoHome
    } else if is_dir(installed_dir(style, home->0)) {
        DirSearch::Found(installed_dir(style, home->0))
    } else if is_dir(cloned_dir(style, home->0)) {
        DirSearch::Found(cloned_dir(style, home->0))
    } else {
        DirSearch::NotInstalled
    }
}

/// Whatever the surroundings, five answers settle the search, and it ends with the
/// directory that comes first.
pub proof fn law_dir_search_resolves(
    style: PathStyle,
    override_dir: Option<Seq<char>>,
    home: Option<Seq<char>>,
    is_dir: spec_fn(Seq<char>) -> bool,
)
    ensures
        DirSearch::<Seq<char>>::ReadOverride.driven(style, override_dir, home, is_dir, 5)
            == resolved_dir(style, override_dir, home, is_dir),
{
    reveal_with_fuel(DirSearch::<Seq<char>>::driven, 6);
}

/// What is found is what was looked for: a search ends with a directory only where it has
/// just asked for that very directory and was told that it is there.
pub proof fn law_found_dir_was_there(
    search: DirSearch<Seq<char>>,
    style: PathStyle,
    seen: Seen<Seq<char>>,
    dir: Seq<char>,
)
    requires
        !(search is Found),
    ensures
        search.after(style, seen) == DirSearch::Found(dir) <==> seen == Seen::<
            Seq<char>,
        >::Present(true) && search.probed(style) == Some(dir),
{
}

/// A search takes one question after the other: the variable that names a directory and
/// then that directory, the home, the installed scripts below it, the clone below it. An
/// answer that does not fit the open question changes nothing.
pub proof fn law_dir_search_steps(
    style: PathStyle,
    text: Seq<char>,
    search: DirSearch<Seq<char>>,
    seen: Seen<Seq<char>>,
)
    ensures
        DirSearch::ReadOverride.after(style, Seen::Var(Some(text))) == DirSearch::ProbeOverride(
            text,
        ),
        DirSearch::ReadOverride.after(style, Seen::Var(None)) is ReadHome,
        DirSearch::ReadHome.after(style, Seen::Var(Some(text))) == DirSearch::ProbeInstalled(
            text,
        ),
        DirSearch::ReadHome.after(style, Seen::Var(None)) is NoHome,
        DirSearch::ProbeOverride(text).after(style, Seen::Present(false)) is ReadHome,
        DirSearch::ProbeInstalled(text).after(style, Seen::Present(false))
            == DirSearch::ProbeCloned(text),
        DirSearch::ProbeCloned(text).after(style, Seen::Present(false)) is NotInstalled,
        search is Found || search is NoHome || search is NotInstalled ==> search.after(
            style,
            seen,
        ) == search,
        search is ReadOverride || search is ReadHome ==> (seen is Var || search.after(
            style,
            seen,
        ) == search),
        search.probed(style) is Some ==> (seen is Present || search.after(style, seen)
            == search),
        DirSearch::ProbeOverride(text).probed(style) == Some(text),
        search.probed(style) is Some <==> search is ProbeOverride || search is ProbeInstalled
            || search is ProbeCloned,
{
}

/// Where the scripts are looked for, below the home and component by component.
pub proof fn law_script_dirs(style: PathStyle, home: Seq<char>)
    ensures
        DirSearch::ProbeInstalled(home).probed(style) == Some(
            crate::paths::joined(style, home, ".local/share/ardi-auto-mine"@),
        ),
        DirSearch::ProbeCloned(home).probed(style) == Some(
            crate::paths::joined(style, home, "ardi-skill/tools/auto-mine"@),
        ),
        !style.is_bare_drive(home) ==> {
            let below = crate::paths::components(style, home);
            &&& DirSearch::ProbeInstalled(home).probed(style) matches Some(dir)
                && crate::paths::components(style, dir) == below + seq![
                ".local"@,
                "share"@,
                "ardi-auto-mine"@,
            ]
            &&& DirSearch::ProbeCloned(home).probed(style) matches Some(dir)
                && crate::paths::components(style, dir) == below + seq![
                "ardi-skill"@,
                "tools"@,
                "auto-mine"@,
            ]
        },
{
    lemma_installed_dir_components(style);
    lemma_cloned_dir_components(style);
    crate::paths::law_joined_components(style, home, ".local/share/ardi-auto-mine"@);
    crate::paths::law_joined_components(style, home, "ardi-skill/tools/auto-mine"@);
}

proof fn lemma_installed_dir_components(style: PathStyle)
    ensures
        crate::paths::components(style, ".local/share/ardi-auto-mine"@) == seq![
            ".local"@,
            "share"@,
            "ardi-auto-mine"@,
        ],
{
    reveal_strlit(".local/share/ardi-auto-mine");
    reveal_strlit(".local");
    reveal_strlit("share");
    reveal_strlit("ardi-auto-mine");
    assert(".local/share/ardi-auto-mine"@ =~= ".local"@.push('/') + "share"@.push('/')
        + "ardi-auto-mine"@);
    crate::paths::lemma_three_components(style, ".local"@, "share"@, "ardi-auto-mine"@);
}

proof fn lemma_cloned_dir_components(style: PathStyle)
    ensures
        crate::paths::components(style, "ardi-skill/tools/auto-mine"@) == seq![
            "ardi-skill"@,
            "tools"@,
            "auto-mine"@,
        ],
{
    reveal_strlit("ardi-skill/tools/auto-mine");
    reveal_strlit("ardi-skill");
    reveal_strlit("tools");
    reveal_strlit("auto-mine");
    assert("ardi-skill/tools/auto-mine"@ =~= "ardi-skill"@.push('/') + "tools"@.push('/')
        + "auto-mine"@);
    crate::paths::lemma_three_components(style, "ardi-skill"@, "tools"@, "auto-mine"@);
}

/// The view of a search keeps what it is about.
pub proof fn law_dir_search_view(search: DirSearch<String>)
    ensures
        search matches DirSearch::ProbeOverride(p) ==> search@ == DirSearch::ProbeOverride(p@),
        search matches DirSearch::ProbeInstalled(p) ==> search@ == DirSearch::ProbeInstalled(p@),
        search matches DirSearch::ProbeCloned(p) ==> search@ == DirSearch::ProbeCloned(p@),
        search matches DirSearch::Found(p) ==> search@ == DirSearch::Found(p@),
        search is ReadOverride <==> search@ is ReadOverride,
        search is ReadHome <==> search@ is ReadHome,
        search is NoHome <==> search@ is NoHome,
        search is NotInstalled <==> search@ is NotInstalled,
{
}

impl DirSearch<String> {
    /// The search before anything is known.
    pub fn start() -> (r: DirSearch<String>)
        ensures
            r@ == DirSearch::<Seq<char>>::ReadOverride,
    {
        DirSearch::ReadOverride
    }

    /// The directory that is to be looked for.
    pub fn probe(&self, style: PathStyle) -> (r: Option<String>)
        ensures
            crate::paths::opt_view(r) == self@.probed(style),
    {
        proof {
            reveal_strlit(".local/share/ardi-auto-mine");
            reveal_strlit("ardi-skill/tools/auto-mine");
        }
        match self {
            DirSearch::ProbeOverride(dir) => Some(dir.clone()),
            DirSearch::ProbeInstalled(home) => Some(
                join(style, home.as_str(), ".local/share/ardi-auto-mine"),
            ),
            DirSearch::ProbeCloned(home) => Some(
                join(style, home.as_str(), "ardi-skill/tools/auto-mine"),
            ),
            _ => None,
        }
    }

    /// The search after `seen`.
    pub fn step(self, style: PathStyle, seen: Seen<String>) -> (r: DirSearch<String>)
        ensures
            r@ == self@.after(style, seen@),
    {
        if let Seen::Present(true) = seen {
            return match self.probe(style) {
                Some(dir) => DirSearch::Found(dir),
                None => self,
            };
        }
        match (self, seen) {
            (DirSearch::ReadOverride, Seen::Var(Some(dir))) => DirSearch::ProbeOverride(dir),
            (DirSearch::ReadOverride, Seen::Var(None)) => DirSearch::ReadHome,
            (DirSearch::ReadHome, Seen::Var(Some(home))) => DirSearch::ProbeInstalled(home),
            (DirSearch::ReadHome, Seen::Var(None)) => DirSearch::NoHome,
            (DirSearch::ProbeOverride(_), Seen::Present(_)) => DirSearch::ReadHome,
            (DirSearch::ProbeInstalled(home), Seen::Present(_)) => DirSearch::ProbeCloned(home),
            (DirSearch::ProbeCloned(_), Seen::Present(_)) => DirSearch::NotInstalled,
            (search, _) => search,
        }
    }

    /// The failure that ended the search.
    pub fn error(&self) -> (r: Option<String>)
        ensures
            crate::paths::opt_view(r) == self@.error_text(),
            r is Some <==> *self is NoHome || *self is NotInstalled,
            *self is NoHome ==> r->0@ == "$HOME not set"@,
            *self is NotInstalled ==> r->0@
                == "auto-mine install dir not found. Run `ardi-agent auto-mine` first to install the runtime files (it now works on no-systemd hosts: it writes the env + scripts and prints `ardi-agent loop` instructions instead of starting a timer)."@,
    {
        match self {
            DirSearch::NoHome => Some("$HOME not set".to_string()),
            DirSearch::NotInstalled => Some(
                "auto-mine install dir not found. Run `ardi-agent auto-mine` first to install the runtime files (it now works on no-systemd hosts: it writes the env + scripts and prints `ardi-agent loop` instructions instead of starting a timer).".to_string(),
            ),
            _ => None,
        }
    }
}

/// What the loop runs, and how often.
#[derive(Debug)]
pub struct LoopPlan {
    /// Seconds between two ticks.
    pub interval: u64,
    /// Whether one tick is enough.
    pub once: bool,
    /// The tick script.
    pub tick: String,
    /// The file that sets the environment of a tick.
    pub env_file: String,
}

/// Why the loop cannot start.
#[derive(Clone, Copy, Debug, PartialEq, Eq, Structural)]
pub enum SetupError {
    TickMissing,
    NoHome,
}

/// The tick script in a directory of scripts.
pub open spec fn tick_path(style: PathStyle, install_dir: Seq<char>) -> Seq<char> {
    crate::paths::joined(style, install_dir, "ardi-tick.sh"@)
}

/// The environment file below a home.
pub open spec fn env_path(style: PathStyle, home: Seq<char>) -> Seq<char> {
    crate::paths::joined(style, home, ".ardi-agent/auto-mine.env"@)
}

/// The tick script in a directory of scripts.
pub fn tick_script(style: PathStyle, install_dir: &str) -> (r: String)
    ensures
        r@ == tick_path(style, install_dir@),
{
    proof {
        reveal_strlit("ardi-tick.sh");
    }
    join(style, install_dir, "ardi-tick.sh")
}

/// The tick script lies in the install directory: what stands behind the last separator
/// is `ardi-tick.sh`, and what stands before it is the directory, as it was given,
/// however long it is. The environment file lies in the agent's directory.
pub proof fn law_scripts_lie_where_they_should(style: PathStyle, dir: Seq<char>)
    ensures
        style.is_bare_drive(dir) ==> tick_path(style, dir) == dir + "ardi-tick.sh"@ && env_path(
            style,
            dir,
        ) == dir + ".ardi-agent/auto-mine.env"@,
        !style.is_bare_drive(dir) ==> {
            let above = crate::paths::components(style, dir);
            &&& crate::paths::components(style, tick_path(style, dir)) == above.push(
                "ardi-tick.sh"@,
            )
            &&& crate::paths::components(style, env_path(style, dir)) == above.push(
                ".ardi-agent"@,
            ).push("auto-mine.env"@)
            &&& dir.len() > 0 ==> crate::paths::file_name(style, tick_path(style, dir))
                == "ardi-tick.sh"@
            &&& dir.len() > 0 && !style.separates(dir.last()) ==> crate::paths::parent(
                style,
                tick_path(style, dir),
            ) == dir
        },
        dir.len() == 0 ==> tick_path(style, dir) == "ardi-tick.sh"@,
        env_path(style, dir) == crate::paths::joined(style, dir, ".ardi-agent/auto-mine.env"@),
{
    lemma_tick_name_is_plain(style);
    lemma_env_components(style);
    crate::paths::law_joined_components(style, dir, "ardi-tick.sh"@);
    crate::paths::lemma_one_component(style, "ardi-tick.sh"@);
    crate::paths::law_joined_components(style, dir, ".ardi-agent/auto-mine.env"@);
    if !style.is_bare_drive(dir) {
        crate::paths::law_joined_has_parent_and_name(style, dir, "ardi-tick.sh"@);
    }
    assert(dir.len() == 0 ==> dir + "ardi-tick.sh"@ =~= "ardi-tick.sh"@);
    assert(crate::paths::components(style, dir) + seq!["ardi-tick.sh"@]
        =~= crate::paths::components(style, dir).push("ardi-tick.sh"@));
    assert(crate::paths::components(style, dir) + seq![".ardi-agent"@, "auto-mine.env"@]
        =~= crate::paths::components(style, dir).push(".ardi-agent"@).push("auto-mine.env"@));
}

proof fn lemma_tick_name_is_plain(style: PathStyle)
    ensures
        crate::paths::is_plain(style, "ardi-tick.sh"@),
        "ardi-tick.sh"@.len() > 0,
{
    reveal_strlit("ardi-tick.sh");
}

proof fn lemma_env_components(style: PathStyle)
    ensures
        crate::paths::components(style, ".ardi-agent/auto-mine.env"@) == seq![
            ".ardi-agent"@,
            "auto-mine.env"@,
        ],
{
    reveal_strlit(".ardi-agent/auto-mine.env");
    reveal_strlit(".ardi-agent");
    reveal_strlit("auto-mine.env");
    assert(".ardi-agent/auto-mine.env"@ =~= ".ardi-agent"@.push('/') + "auto-mine.env"@);
    crate::paths::lemma_two_components(style, ".ardi-agent"@, "auto-mine.env"@);
}

/// The plan of a loop over the script `tick`. The script must be there, and the home
/// must be known; a missing script is reported first.
pub fn plan(
    args: LoopArgs,
    tick: String,
    tick_is_file: bool,
    home: Option<String>,
    style: PathStyle,
) -> (r: Result<LoopPlan, SetupError>)
    ensures
        r == Err::<LoopPlan, SetupError>(SetupError::TickMissing) <==> !tick_is_file,
        r == Err::<LoopPlan, SetupError>(SetupError::NoHome) <==> tick_is_file && home is None,
        r is Ok <==> tick_is_file && home is Some,
        r matches Ok(p) ==> {
            &&& args.interval_sec matches Some(s) ==> (s >= MIN_INTERVAL_SEC ==> p.interval == s)
            &&& args.interval_sec matches Some(s) ==> (s < MIN_INTERVAL_SEC ==> p.interval
                == MIN_INTERVAL_SEC)
            &&& args.interval_sec is None ==> p.interval == DEFAULT_INTERVAL_SEC
            &&& p.interval == if args.asked_interval() < MIN_INTERVAL_SEC {
                MIN_INTERVAL_SEC
            } else {
                args.asked_interval()
            }
            &&& p.once == args.once
            &&& p.tick == tick
            &&& p.env_file@ == env_path(style, home->0@)
        },
{
    proof {
        reveal_strlit(".ardi-agent/auto-mine.env");
    }
    if !tick_is_file {
        return Err(SetupError::TickMissing);
    }
    match home {
        Some(h) => Ok(
            LoopPlan {
                interval: args.interval(),
                once: args.once,
                tick,
                env_file: join(style, h.as_str(), ".ardi-agent/auto-mine.env"),
            },
        ),
        None => Err(SetupError::NoHome),
    }
}

/// Why the loop over the script `tick` cannot start, as text.
pub open spec fn setup_error_text(e: SetupError, tick: Seq<char>) -> Seq<char> {
    match e {
        SetupError::TickMissing => "ardi-tick.sh not found at "@ + tick
            + ". Run `ardi-agent auto-mine` once to install the runtime files (it works on no-systemd hosts too — it just won't start a timer)."@,
        SetupError::NoHome => "$HOME not set"@,
    }
}

/// Why the loop over the script `tick` cannot start.
pub fn setup_error(e: SetupError, tick: &str) -> (r: String)
    ensures
        r@ == setup_error_text(e, tick@),
        e is TickMissing ==> r@ == "ardi-tick.sh not found at "@ + tick@
            + ". Run `ardi-agent auto-mine` once to install the runtime files (it works on no-systemd hosts too — it just won't start a timer)."@,
        e is NoHome ==> r@ == "$HOME not set"@,
{
    match e {
        SetupError::TickMissing => "ardi-tick.sh not found at ".to_string().concat(tick).concat(
            ". Run `ardi-agent auto-mine` once to install the runtime files (it works on no-systemd hosts too — it just won't start a timer).",
        ),
        SetupError::NoHome => "$HOME not set".to_string(),
    }
}

/// What is said before the first tick about a missing environment file.
pub open spec fn env_warning(env_file: Seq<char>) -> Seq<Seq<char>> {
    seq![
        "[warn] env file not found at "@ + env_file + " — proceeding with current process env."@,
        "[warn]   `ardi-agent auto-mine` writes this file on first run."@,
    ]
}

/// What is said before the first tick.
pub open spec fn opening(plan: LoopPlan) -> Seq<Seq<char>> {
    seq![
        "[info] ardi-agent loop starting"@,
        "[info]   tick:    "@ + plan.tick@,
        "[info]   env:     "@ + plan.env_file@,
        "[info]   every:   "@ + crate::text::decimal(plan.interval as nat) + "s"@,
        "[info]   once:    "@ + if plan.once {
            "true"@
        } else {
            "false"@
        },
        "[info] press Ctrl-C to stop (current tick finishes first)"@,
    ]
}

impl LoopPlan {
    /// What is said before the first tick: a warning where the environment file is not
    /// there, then the plan.
    pub fn opening_lines(&self, env_is_file: bool) -> (r: Vec<String>)
        ensures
            crate::text::texts(r@) == if env_is_file {
                opening(*self)
            } else {
                env_warning(self.env_file@) + opening(*self)
            },
            ({
                let k: int = if env_is_file {
                    0
                } else {
                    2
                };
                &&& r@.len() == k + 6
                &&& !env_is_file ==> {
                    &&& r@[0]@ == "[warn] env file not found at "@ + self.env_file@
                        + " — proceeding with current process env."@
                    &&& r@[1]@
                        == "[warn]   `ardi-agent auto-mine` writes this file on first run."@
                }
                &&& r@[k]@ == "[info] ardi-agent loop starting"@
                &&& r@[k + 1]@ == "[info]   tick:    "@ + self.tick@
                &&& r@[k + 2]@ == "[info]   env:     "@ + self.env_file@
                &&& r@[k + 3]@ == "[info]   every:   "@ + crate::text::decimal(
                    self.interval as nat,
                ) + "s"@
                &&& self.once ==> r@[k + 4]@ == "[info]   once:    "@ + "true"@
                &&& !self.once ==> r@[k + 4]@ == "[info]   once:    "@ + "false"@
                &&& r@[k + 5]@ == "[info] press Ctrl-C to stop (current tick finishes first)"@
            }),
    {
        let mut lines: Vec<String> = Vec::new();
        if !env_is_file {
            lines.push(
                "[warn] env file not found at ".to_string().concat(self.env_file.as_str()).concat(
                    " — proceeding with current process env.",
                ),
            );
            lines.push(
                "[warn]   `ardi-agent auto-mine` writes this file on first run.".to_string(),
            );
        }
        lines.push("[info] ardi-agent loop starting".to_string());
        lines.push("[info]   tick:    ".to_string().concat(self.tick.as_str()));
        lines.push("[info]   env:     ".to_string().concat(self.env_file.as_str()));
        lines.push(
            "[info]   every:   ".to_string().concat(decimal_u64(self.interval).as_str()).concat(
                "s",
            ),
        );
        let once: &str = if self.once {
            "true"
        } else {
            "false"
        };
        lines.push("[info]   once:    ".to_string().concat(once));
        lines.push("[info] press Ctrl-C to stop (current tick finishes first)".to_string());
        proof {
            if env_is_file {
                assert(crate::text::texts(lines@) =~= opening(*self));
            } else {
                assert(crate::text::texts(lines@) =~= env_warning(self.env_file@) + opening(*self));
            }
        }
        lines
    }

    /// Whether the next tick is due, `slept_sec` whole seconds after the last one ended.
    pub fn interval_passed(&self, slept_sec: u64) -> (r: bool)
        ensures
            r == (slept_sec >= self.interval),
    {
        slept_sec >= self.interval
    }

    /// The command line that `bash -c` is given for one tick.
    pub fn command(&self) -> (r: String)
        ensures
            r@ == crate::shell::tick_command_text(self.env_file@, self.tick@),
    {
        crate::shell::tick_command(self.env_file.as_str(), self.tick.as_str())
    }
}

/// How the loop ended.
#[derive(Clone, Copy, Debug, PartialEq, Eq, Structural)]
pub enum LoopEnd {
    /// One tick was enough.
    Once,
    /// A stop was requested by the time a tick had ended.
    Stopped,
    /// A stop was requested between two ticks.
    StoppedAsleep,
    /// The tick script cannot work until the setup is mended; this is its exit code.
    BadSetup(i32),
}

/// Where the loop stands. Ticks are counted from one.
#[derive(Clone, Copy, Debug, PartialEq, Eq, Structural)]
pub enum LoopState {
    /// This tick runs.
    Ticking(u64),
    /// This tick was the last one that ran; the loop waits for the next.
    Sleeping(u64),
    Ended(LoopEnd),
}

/// What the caller reports.
#[derive(Clone, Debug)]
pub enum LoopEvent<P> {
    /// The tick has ended, and whether a stop has been requested.
    TickDone(Exit<P>, bool),
    /// While the loop sleeps: how many whole seconds have gone by since the tick ended,
    /// and whether a stop has been requested.
    Awake(u64, bool),
}

/// An exit code of the tick script that no retry mends.
pub open spec fn is_setup_code(code: i32) -> bool {
    code == 64 || code == 65 || code == 66
}

/// A tick that ended like this shows that the setup is broken.
pub open spec fn breaks_setup<P>(exit: Exit<P>) -> bool {
    exit matches Exit::Failed(code) && is_setup_code(crate::probe::reported_code(code))
}

impl LoopState {
    /// The state after an event. After a tick, a broken setup ends the loop, then a loop
    /// of one tick ends, then a requested stop does; any other failure is taken to be
    /// transient. While the loop sleeps, a requested stop ends it, and else the next tick
    /// starts once the interval has passed. An event that does not belong to the state
    /// changes nothing.
    pub open spec fn after<P>(self, once: bool, interval: u64, e: LoopEvent<P>) -> LoopState {
        match (self, e) {
            (LoopState::Ticking(n), LoopEvent::TickDone(exit, stop)) => if breaks_setup(exit) {
                LoopState::Ended(
                    LoopEnd::BadSetup(crate::probe::reported_code(exit->Failed_0)),
                )
            } else if once {
                LoopState::Ended(LoopEnd::Once)
            } else if stop {
                LoopState::Ended(LoopEnd::Stopped)
            } else {
                LoopState::Sleeping(n)
            },
            (LoopState::Sleeping(n), LoopEvent::Awake(slept_sec, stop)) => if stop {
                LoopState::Ended(LoopEnd::StoppedAsleep)
            } else if slept_sec >= interval {
                LoopState::Ticking((n + 1) as u64)
            } else {
                LoopState::Sleeping(n)
            },
            _ => self,
        }
    }

    /// The state of a loop that starts its first tick.
    pub fn start() -> (r: LoopState)
        ensures
            r == LoopState::Ticking(1),
    {
        LoopState::Ticking(1)
    }

    /// `e` starts a tick that the counter cannot number.
    pub open spec fn overflows<P>(self, interval: u64, e: LoopEvent<P>) -> bool {
        &&& self == LoopState::Sleeping(u64::MAX)
        &&& e matches LoopEvent::Awake(slept_sec, stop)
        &&& !stop
        &&& slept_sec >= interval
    }

    /// The state after an event. The counter must be able to number the tick that the
    /// event starts.
    pub fn step(self, plan: &LoopPlan, e: &LoopEvent<String>) -> (r: LoopState)
        requires
            !self.overflows(plan.interval, *e),
        ensures
            r == self.after(plan.once, plan.interval, *e),
            self matches LoopState::Sleeping(n) ==> (*e matches LoopEvent::Awake(
                slept_sec,
                stop,
            ) ==> {
                &&& stop ==> r == LoopState::Ended(LoopEnd::StoppedAsleep)
                &&& !stop && slept_sec < plan.interval ==> r == self
                &&& !stop && slept_sec >= plan.interval ==> (r matches LoopState::Ticking(next)
                    && next == n + 1)
            }),
            self is Ticking ==> (*e matches LoopEvent::TickDone(exit, stop) ==> {
                &&& exit matches Exit::Failed(Some(code)) ==> (64 <= code <= 66 ==> r
                    == LoopState::Ended(LoopEnd::BadSetup(code)))
                &&& !(exit matches Exit::Failed(Some(code)) && 64 <= code <= 66) ==> {
                    &&& plan.once ==> r == LoopState::Ended(LoopEnd::Once)
                    &&& !plan.once && stop ==> r == LoopState::Ended(LoopEnd::Stopped)
                    &&& !plan.once && !stop ==> r == LoopState::Sleeping(self->Ticking_0)
                }
            }),
            self is Ended || self is Ticking && *e is Awake || self is Sleeping
                && *e is TickDone ==> r == self,
    {
        match (self, e) {
            (LoopState::Ticking(n), LoopEvent::TickDone(exit, stop)) => {
                if let Exit::Failed(code) = exit {
                    let code: i32 = code_or_minus_one(*code);
                    if is_fatal(code) {
                        return LoopState::Ended(LoopEnd::BadSetup(code));
                    }
                }
                if plan.once {
                    LoopState::Ended(LoopEnd::Once)
                } else if *stop {
                    LoopState::Ended(LoopEnd::Stopped)
                } else {
                    LoopState::Sleeping(n)
                }
            },
            (LoopState::Sleeping(n), LoopEvent::Awake(slept_sec, stop)) => {
                if *stop {
                    LoopState::Ended(LoopEnd::StoppedAsleep)
                } else if plan.interval_passed(*slept_sec) {
                    LoopState::Ticking(n + 1)
                } else {
                    LoopState::Sleeping(n)
                }
            },
            (state, _) => state,
        }
    }
}

/// Whether an exit code of the tick script is one that no retry mends.
pub fn is_fatal(code: i32) -> (r: bool)
    ensures
        r == is_setup_code(code),
        r <==> 64 <= code <= 66,
{
    code == 64 || code == 65 || code == 66
}

/// What is said when a tick starts.
pub fn tick_banner(n: u64) -> (r: String)
    ensures
        r@ == "[info] ─── tick "@ + crate::text::decimal(n as nat) + " ───"@,
{
    "[info] ─── tick ".to_string().concat(decimal_u64(n).as_str()).concat(" ───")
}

/// What is said of a tick that has ended after `elapsed` seconds.
pub open spec fn tick_report(n: u64, exit: Exit<Seq<char>>, elapsed: Seq<char>) -> Seq<char> {
    let number = crate::text::decimal(n as nat);
    match exit {
        Exit::Succeeded => "[info] tick "@ + number + " ok ("@ + elapsed + "s)"@,
        Exit::Failed(code) => (if breaks_setup(exit) {
            "[error] tick "@
        } else {
            "[warn] tick "@
        }) + number + " exited "@ + crate::text::signed_decimal(
            crate::probe::reported_code(code) as int,
        ) + " ("@ + elapsed + "s)"@,
        Exit::NotStarted(cause) => "[error] failed to spawn ardi-tick.sh: "@ + cause,
    }
}

/// What is said of a tick that has ended. `elapsed` is the number of seconds that it
/// took, as text.
pub fn tick_line(n: u64, exit: &Exit<String>, elapsed: &str) -> (r: String)
    ensures
        r@ == tick_report(n, exit@, elapsed@),
        *exit is Succeeded ==> r@ == "[info] tick "@ + crate::text::decimal(n as nat) + " ok ("@
            + elapsed@ + "s)"@,
        *exit matches Exit::Failed(Some(code)) ==> r@ == (if 64 <= code <= 66 {
            "[error] tick "@
        } else {
            "[warn] tick "@
        }) + crate::text::decimal(n as nat) + " exited "@ + crate::text::signed_decimal(
            code as int,
        ) + " ("@ + elapsed@ + "s)"@,
        *exit matches Exit::Failed(None) ==> r@ == "[warn] tick "@ + crate::text::decimal(
            n as nat,
        ) + " exited "@ + crate::text::signed_decimal(-1) + " ("@ + elapsed@ + "s)"@,
        *exit matches Exit::NotStarted(cause) ==> r@
            == "[error] failed to spawn ardi-tick.sh: "@ + cause@,
{
    let number: String = decimal_u64(n);
    match exit {
        Exit::Succeeded => "[info] tick ".to_string().concat(number.as_str()).concat(
            " ok (",
        ).concat(elapsed).concat("s)"),
        Exit::Failed(code) => {
            let code: i32 = code_or_minus_one(*code);
            let head: &str = if is_fatal(code) {
                "[error] tick "
            } else {
                "[warn] tick "
            };
            head.to_string().concat(number.as_str()).concat(" exited ").concat(
                decimal_i32(code).as_str(),
            ).concat(" (").concat(elapsed).concat("s)")
        },
        Exit::NotStarted(cause) => "[error] failed to spawn ardi-tick.sh: ".to_string().concat(
            cause.as_str(),
        ),
    }
}

impl LoopEnd {
    /// The failure that the loop ended with, as text; none where it ended cleanly.
    pub open spec fn error_text(self) -> Option<Seq<char>> {
        match self {
            LoopEnd::BadSetup(code) => Some(
                "ardi-tick.sh exited "@ + crate::text::signed_decimal(code as int)
                    + " (setup error). Re-run `ardi-agent auto-mine` to fix the install."@,
            ),
            _ => None,
        }
    }

    /// The failure that the loop ended with; none where it ended cleanly.
    pub fn error(&self) -> (r: Option<String>)
        ensures
            crate::paths::opt_view(r) == self.error_text(),
            r is Some <==> *self is BadSetup,
            *self matches LoopEnd::BadSetup(code) ==> r->0@ == "ardi-tick.sh exited "@
                + crate::text::signed_decimal(code as int)
                + " (setup error). Re-run `ardi-agent auto-mine` to fix the install."@,
    {
        match self {
            LoopEnd::BadSetup(code) => Some(
                "ardi-tick.sh exited ".to_string().concat(decimal_i32(*code).as_str()).concat(
                    " (setup error). Re-run `ardi-agent auto-mine` to fix the install.",
                ),
            ),
            _ => None,
        }
    }

    /// What is said at a clean end, as text.
    pub open spec fn farewell_text(self) -> Option<Seq<char>> {
        match self {
            LoopEnd::Once => Some("[info] --once given, exiting after this tick"@),
            LoopEnd::Stopped => Some("[info] stop flag set, exiting cleanly"@),
            LoopEnd::StoppedAsleep => Some(
                "[info] stop flag set during sleep, exiting cleanly"@,
            ),
            LoopEnd::BadSetup(_) => None,
        }
    }

    /// What is said at a clean end.
    pub fn farewell(&self) -> (r: Option<String>)
        ensures
            crate::paths::opt_view(r) == self.farewell_text(),
            r is None <==> *self is BadSetup,
            *self is Once ==> r->0@ == "[info] --once given, exiting after this tick"@,
            *self is Stopped ==> r->0@ == "[info] stop flag set, exiting cleanly"@,
            *self is StoppedAsleep ==> r->0@
                == "[info] stop flag set during sleep, exiting cleanly"@,
    {
        match self {
            LoopEnd::Once => Some("[info] --once given, exiting after this tick".to_string()),
            LoopEnd::Stopped => Some("[info] stop flag set, exiting cleanly".to_string()),
            LoopEnd::StoppedAsleep => Some(
                "[info] stop flag set during sleep, exiting cleanly".to_string(),
            ),
            LoopEnd::BadSetup(_) => None,
        }
    }
}

/// The answer to an interrupt.
#[derive(Clone, Copy, Debug, PartialEq, Eq, Structural)]
pub enum Interrupt {
    /// Finish the current tick, then end.
    StopSoon,
    /// End the process at once, with this status.
    ExitNow(i32),
}

/// The answer to an interrupt: the first asks for a stop, and one that comes while a
/// stop has been requested ends the process at once.
pub fn on_interrupt(stop_requested: bool) -> (r: Interrupt)
    ensures
        r == if stop_requested {
            Interrupt::ExitNow(INTERRUPT_STATUS)
        } else {
            Interrupt::StopSoon
        },
        stop_requested ==> r == Interrupt::ExitNow(130),
{
    if stop_requested {
        Interrupt::ExitNow(INTERRUPT_STATUS)
    } else {
        Interrupt::StopSoon
    }
}

impl Interrupt {
    /// What is said at an interrupt.
    pub fn line(&self) -> (r: String)
        ensures
            *self is StopSoon ==> r@
                == "[info] stop requested — finishing current tick, then exiting"@,
            *self is ExitNow ==> r@ == "[warn] second Ctrl-C — exiting immediately"@,
    {
        match self {
            Interrupt::StopSoon =>
                "[info] stop requested — finishing current tick, then exiting".to_string(),
            Interrupt::ExitNow(_) => "[warn] second Ctrl-C — exiting immediately".to_string(),
        }
    }
}

/// A loop and the count of the ticks that it has started and that have ended.
pub struct LoopRun {
    pub state: LoopState,
    pub started: nat,
    pub done: nat,
}

impl LoopRun {
    /// A loop in its first tick.
    pub open spec fn first() -> LoopRun {
        LoopRun { state: LoopState::Ticking(1), started: 1, done: 0 }
    }

    /// The run after one event.
    pub open spec fn after<P>(self, once: bool, interval: u64, e: LoopEvent<P>) -> LoopRun {
        let state = self.state.after(once, interval, e);
        LoopRun {
            state,
            started: if self.state is Sleeping && state is Ticking {
                self.started + 1
            } else {
                self.started
            },
            done: if self.state is Ticking && e is TickDone {
                self.done + 1
            } else {
                self.done
            },
        }
    }

    /// The run after the events of `trace`.
    pub open spec fn ran<P>(self, once: bool, interval: u64, trace: Seq<LoopEvent<P>>) -> LoopRun
        decreases trace.len(),
    {
        if trace.len() == 0 {
            self
        } else {
            self.ran(once, interval, trace.drop_last()).after(once, interval, trace.last())
        }
    }

    /// The counter can number every tick that `trace` starts.
    pub open spec fn countable<P>(
        self,
        once: bool,
        interval: u64,
        trace: Seq<LoopEvent<P>>,
    ) -> bool
        decreases trace.len(),
    {
        trace.len() > 0 ==> {
            &&& self.countable(once, interval, trace.drop_last())
            &&& !self.ran(once, interval, trace.drop_last()).state.overflows(
                interval,
                trace.last(),
            )
        }
    }
}

/// Only one tick runs at a time: whatever happens, every tick that was started has
/// ended, except for the one that runs. As long as the counter can number them, the
/// number of the tick that runs, or ran last, is the number of ticks started.
pub proof fn law_one_tick_at_a_time<P>(once: bool, interval: u64, trace: Seq<LoopEvent<P>>)
    ensures
        ({
            let run = LoopRun::first().ran(once, interval, trace);
            &&& run.started == run.done + if run.state is Ticking {
                1nat
            } else {
                0nat
            }
            &&& LoopRun::first().countable(once, interval, trace) ==> {
                &&& run.state matches LoopState::Ticking(n) ==> run.started == n
                &&& run.state matches LoopState::Sleeping(n) ==> run.started == n
            }
        }),
    decreases trace.len(),
{
    if trace.len() > 0 {
        law_one_tick_at_a_time(once, interval, trace.drop_last());
    }
}

/// A loop that is asked for one tick starts one tick, whatever happens, and has ended
/// as soon as that tick has.
pub proof fn law_once_runs_one_tick<P>(interval: u64, trace: Seq<LoopEvent<P>>)
    ensures
        ({
            let run = LoopRun::first().ran(true, interval, trace);
            &&& run.started == 1
            &&& run.done <= 1
            &&& run.done == 1 <==> run.state is Ended
            &&& !(run.state is Sleeping)
        }),
    decreases trace.len(),
{
    if trace.len() > 0 {
        law_once_runs_one_tick(interval, trace.drop_last());
    }
}

/// `e` reports that a stop has been requested.
pub open spec fn reports_stop<P>(e: LoopEvent<P>) -> bool {
    match e {
        LoopEvent::TickDone(_, stop) => stop,
        LoopEvent::Awake(_, stop) => stop,
    }
}

/// Once a stop has been requested, no further tick starts: the tick that runs is the
/// last one and the loop ends with it, and a loop that sleeps ends without another
/// tick.
pub proof fn law_stop_ends_the_loop<P>(
    run: LoopRun,
    once: bool,
    interval: u64,
    trace: Seq<LoopEvent<P>>,
)
    requires
        forall|i: int| 0 <= i < trace.len() ==> reports_stop(#[trigger] trace[i]),
    ensures
        ({
            let end = run.ran(once, interval, trace);
            &&& end.started == run.started
            &&& end.done > run.done ==> end.state is Ended
            &&& end.state is Ended || end == run
            &&& forall|i: int|
                0 <= i < trace.len() && (run.state is Ticking && (#[trigger] trace[i]) is TickDone
                    || run.state is Sleeping && trace[i] is Awake) ==> end.state is Ended
        }),
    decreases trace.len(),
{
    if trace.len() > 0 {
        let init = trace.drop_last();
        assert forall|i: int| 0 <= i < init.len() implies reports_stop(#[trigger] init[i]) by {
            assert(init[i] == trace[i]);
        }
        law_stop_ends_the_loop(run, once, interval, init);
        assert(reports_stop(trace[trace.len() - 1]));
        let end = run.ran(once, interval, trace);
        assert forall|i: int|
            0 <= i < trace.len() && (run.state is Ticking && (#[trigger] trace[i]) is TickDone
                || run.state is Sleeping && trace[i] is Awake) implies end.state is Ended by {
            if i < init.len() {
                assert(init[i] == trace[i]);
            }
        }
    }
}

/// What a tick's end means does not depend on when it comes. A broken setup ends the
/// loop, with the exit code; and a tick that failed in any other way leaves the loop
/// where a successful one would.
pub proof fn law_only_setup_errors_are_fatal<P>(
    n: u64,
    once: bool,
    interval: u64,
    exit: Exit<P>,
    stop: bool,
)
    ensures
        ({
            let next = LoopState::Ticking(n).after(
                once,
                interval,
                LoopEvent::TickDone(exit, stop),
            );
            if breaks_setup(exit) {
                next == LoopState::Ended(
                    LoopEnd::BadSetup(crate::probe::reported_code(exit->Failed_0)),
                )
            } else {
                next == LoopState::Ticking(n).after(
                    once,
                    interval,
                    LoopEvent::TickDone(Exit::<P>::Succeeded, stop),
                )
            }
        }),
{
}

/// A loop that sleeps goes on by what it is told alone. For every tick number that the
/// counter can still raise, and every interval, it starts the next tick as soon as it is
/// told that at least the interval has passed and that no stop is requested; before that
/// it sleeps on; and a requested stop ends it, however long it has slept. Nothing else
/// wakes it, and the counter gives out only behind its last number.
pub proof fn law_sleeper_wakes_when_due<P>(
    n: u64,
    once: bool,
    interval: u64,
    slept_sec: u64,
    e: LoopEvent<P>,
)
    ensures
        ({
            let next = LoopState::Sleeping(n).after(
                once,
                interval,
                LoopEvent::<P>::Awake(slept_sec, false),
            );
            &&& slept_sec >= interval && n < u64::MAX ==> (next matches LoopState::Ticking(m)
                && m == n + 1)
            &&& slept_sec < interval ==> next == LoopState::Sleeping(n)
        }),
        LoopState::Sleeping(n).after(once, interval, LoopEvent::<P>::Awake(slept_sec, true))
            == LoopState::Ended(LoopEnd::StoppedAsleep),
        e is TickDone ==> LoopState::Sleeping(n).after(once, interval, e)
            == LoopState::Sleeping(n),
        LoopState::Sleeping(n).overflows(interval, e) ==> n == u64::MAX && (e matches
            LoopEvent::Awake(slept, stop) && slept >= interval && !stop),
        !LoopState::Ticking(n).overflows(interval, e),
{
}

/// A tick that ends decides once: an exit code that stands for a broken setup ends the
/// loop with that code; else a loop of one tick ends; else a requested stop ends it; else
/// it sleeps, with the number of the tick kept. While a tick runs nothing else counts.
pub proof fn law_tick_end_decides<P>(
    n: u64,
    once: bool,
    interval: u64,
    exit: Exit<P>,
    stop: bool,
    slept_sec: u64,
)
    ensures
        ({
            let next = LoopState::Ticking(n).after(
                once,
                interval,
                LoopEvent::TickDone(exit, stop),
            );
            let broken = exit matches Exit::Failed(Some(code)) && 64 <= code <= 66;
            &&& broken ==> next == LoopState::Ended(LoopEnd::BadSetup(exit->Failed_0->0))
            &&& !broken && once ==> next == LoopState::Ended(LoopEnd::Once)
            &&& !broken && !once && stop ==> next == LoopState::Ended(LoopEnd::Stopped)
            &&& !broken && !once && !stop ==> next == LoopState::Sleeping(n)
        }),
        LoopState::Ticking(n).after(once, interval, LoopEvent::<P>::Awake(slept_sec, stop))
            == LoopState::Ticking(n),
{
}

/// `e` reports that a tick ended with this exit code.
pub open spec fn reports_code<P>(e: LoopEvent<P>, code: i32) -> bool {
    e matches LoopEvent::TickDone(exit, _) && exit == Exit::<P>::Failed(Some(code))
}

/// A loop never ends by itself. Where it has ended, it was asked for one tick only, or a
/// stop was reported, or a tick reported the exit code of a broken setup, and the end
/// says which.
pub proof fn law_loop_ends_for_a_reason<P>(
    once: bool,
    interval: u64,
    trace: Seq<LoopEvent<P>>,
)
    ensures
        LoopRun::first().ran(once, interval, trace).state matches LoopState::Ended(end) ==> {
            match end {
                LoopEnd::Once => once,
                LoopEnd::BadSetup(code) => {
                    &&& 64 <= code <= 66
                    &&& exists|i: int|
                        0 <= i < trace.len() && reports_code(#[trigger] trace[i], code)
                },
                _ => exists|i: int| 0 <= i < trace.len() && reports_stop(#[trigger] trace[i]),
            }
        },
    decreases trace.len(),
{
    if trace.len() > 0 {
        let init = trace.drop_last();
        law_loop_ends_for_a_reason(once, interval, init);
        let before = LoopRun::first().ran(once, interval, init).state;
        let after = LoopRun::first().ran(once, interval, trace).state;
        match before {
            LoopState::Ended(LoopEnd::BadSetup(code)) => {
                let i = choose|i: int|
                    0 <= i < init.len() && reports_code(#[trigger] init[i], code);
                assert(trace[i] == init[i]);
            },
            LoopState::Ended(LoopEnd::Once) => {},
            LoopState::Ended(_) => {
                let i = choose|i: int| 0 <= i < init.len() && reports_stop(#[trigger] init[i]);
                assert(trace[i] == init[i]);
            },
            _ => {
                let last = trace.len() - 1;
                assert(trace[last] == trace.last());
                match after {
                    LoopState::Ended(LoopEnd::BadSetup(code)) => {
                        assert(reports_code(trace[last], code));
                    },
                    LoopState::Ended(LoopEnd::Once) => {},
                    LoopState::Ended(_) => {
                        assert(reports_stop(trace[last]));
                    },
                    _ => {},
                }
            },
        }
    }
}

/// A loop that has ended stays so.
pub proof fn law_ended_is_final<P>(end: LoopEnd, once: bool, interval: u64, e: LoopEvent<P>)
    ensures
        LoopState::Ended(end).after(once, interval, e) == LoopState::Ended(end),
{
}

/// Nanoseconds in a second.
pub open spec fn second() -> int {
    1_000_000_000
}

/// Events of a loop, each with the time at which it was reported, in nanoseconds.
pub struct TimedRun<P> {
    pub once: bool,
    pub interval: u64,
    pub events: Seq<(int, LoopEvent<P>)>,
}

impl<P> TimedRun<P> {
    /// All but the last event.
    pub open spec fn before_last(self) -> TimedRun<P> {
        TimedRun { once: self.once, interval: self.interval, events: self.events.drop_last() }
    }

    /// The loop after the events.
    pub open spec fn run(self) -> LoopRun {
        LoopRun::first().ran(
            self.once,
            self.interval,
            self.events.map_values(|e: (int, LoopEvent<P>)| e.1),
        )
    }

    /// The position of the event that reported the end of the last tick that has ended.
    pub open spec fn last_tick_end(self) -> Option<int>
        decreases self.events.len(),
    {
        if self.events.len() == 0 {
            None
        } else if self.before_last().run().state is Ticking && self.events.last().1 is TickDone {
            Some(self.events.len() - 1)
        } else {
            self.before_last().last_tick_end()
        }
    }

    /// A loop that sleeps is told how many whole seconds have gone by since the last
    /// tick ended.
    pub open spec fn tells_time(self) -> bool
        decreases self.events.len(),
    {
        self.events.len() > 0 ==> {
            &&& self.before_last().tells_time()
            &&& self.before_last().run().state is Sleeping ==> {
                let (at, event) = self.events.last();
                event matches LoopEvent::Awake(slept_sec, _) ==> {
                    &&& self.before_last().last_tick_end() matches Some(i)
                    &&& slept_sec == (at - self.events[i].0) / second()
                }
            }
        }
    }

    /// A loop that sleeps is asked again at most `POLL_SEC` seconds after it was asked, or
    /// its tick ended.
    pub open spec fn is_polled(self) -> bool
        decreases self.events.len(),
    {
        self.events.len() > 0 ==> {
            &&& self.before_last().is_polled()
            &&& self.before_last().run().state is Sleeping ==> {
                &&& self.events.last().1 is Awake
                &&& self.events.last().0 <= self.before_last().events.last().0 + POLL_SEC
                    * second()
            }
        }
    }

    /// A stop is requested at the time `request`: what is reported from then on says so.
    pub open spec fn hears_stop(self, request: int) -> bool {
        forall|i: int|
            0 <= i < self.events.len() ==> (reports_stop((#[trigger] self.events[i]).1)
                <==> self.events[i].0 >= request)
    }

    /// The last event starts a tick.
    pub open spec fn starts_tick(self) -> bool {
        &&& self.events.len() > 0
        &&& self.run().started > self.before_last().run().started
    }
}

proof fn lemma_timed_last<P>(t: TimedRun<P>)
    requires
        t.events.len() > 0,
    ensures
        t.run() == t.before_last().run().after(t.once, t.interval, t.events.last().1),
{
    let f = |e: (int, LoopEvent<P>)| e.1;
    assert(t.events.map_values(f).drop_last() =~= t.events.drop_last().map_values(f));
}

/// A loop that sleeps has seen a tick end.
proof fn lemma_sleep_follows_tick_end<P>(t: TimedRun<P>)
    ensures
        t.last_tick_end() matches Some(i) ==> 0 <= i < t.events.len() && t.events[i].1 is TickDone,
        t.run().state is Sleeping ==> t.last_tick_end() is Some,
    decreases t.events.len(),
{
    if t.events.len() > 0 {
        lemma_sleep_follows_tick_end(t.before_last());
        lemma_timed_last(t);
    } else {
        assert(t.events.map_values(|e: (int, LoopEvent<P>)| e.1).len() == 0);
    }
}

/// Two ticks are at least the interval apart, counted from the end of the first:
/// whenever a tick starts, the tick before it has ended, and the interval has gone by
/// since.
pub proof fn law_ticks_keep_their_distance<P>(t: TimedRun<P>)
    requires
        t.tells_time(),
        t.starts_tick(),
    ensures
        t.before_last().last_tick_end() matches Some(i) && {
            &&& 0 <= i < t.events.len() - 1
            &&& t.events[i].1 is TickDone
            &&& t.events.last().0 >= t.events[i].0 + t.interval * second()
        },
        t.before_last().run().done == t.before_last().run().started,
{
    lemma_timed_last(t);
    lemma_sleep_follows_tick_end(t.before_last());
    law_one_tick_at_a_time(
        t.once,
        t.interval,
        t.before_last().events.map_values(|e: (int, LoopEvent<P>)| e.1),
    );
}

/// The next tick is never late. A loop that is asked every `POLL_SEC` seconds and hears of
/// no stop is asleep only as long as the interval has not passed since its last tick
/// ended; asked from then on, it starts the next tick with that very event, whatever the
/// number of the tick; and so every tick starts at most the interval and `POLL_SEC`
/// seconds after the last one ended.
pub proof fn law_next_tick_is_not_late<P>(t: TimedRun<P>)
    requires
        t.events.len() > 0,
        t.interval > 0,
        t.tells_time(),
        t.is_polled(),
        forall|i: int| 0 <= i < t.events.len() ==> !reports_stop((#[trigger] t.events[i]).1),
    ensures
        t.run().state is Sleeping ==> (t.last_tick_end() matches Some(i) && t.events.last().0
            < t.events[i].0 + t.interval * second()),
        t.starts_tick() ==> (t.before_last().last_tick_end() matches Some(i)
            && t.events.last().0 <= t.events[i].0 + (t.interval + POLL_SEC) * second()),
        t.before_last().run().state is Sleeping ==> (t.before_last().last_tick_end() matches Some(i)
            && (t.events.last().0 >= t.events[i].0 + t.interval * second() ==> t.starts_tick())),
    decreases t.events.len(),
{
    lemma_timed_last(t);
    let init = t.before_last();
    lemma_sleep_follows_tick_end(init);
    lemma_sleep_follows_tick_end(t);
    let last = t.events.len() - 1;
    assert(!reports_stop(t.events[last].1));
    if init.events.len() > 0 {
        assert forall|i: int| 0 <= i < init.events.len() implies !reports_stop(
            (#[trigger] init.events[i]).1,
        ) by {
            assert(init.events[i] == t.events[i]);
        }
        law_next_tick_is_not_late(init);
        if init.last_tick_end() is Some {
            let i = init.last_tick_end()->0;
            assert(init.events[i] == t.events[i]);
        }
    } else {
        assert(init.events.map_values(|e: (int, LoopEvent<P>)| e.1).len() == 0);
    }
}

/// A stop is noticed soon. A loop that sleeps and is asked every `POLL_SEC` seconds is
/// never asleep when it has been asked after the stop was requested; the first time
/// that it is asked after the request it ends, without another tick, and that is at
/// most `POLL_SEC` seconds after the request.
pub proof fn law_stop_is_noticed_soon<P>(t: TimedRun<P>, request: int)
    requires
        t.events.len() > 0,
        t.is_polled(),
        t.hears_stop(request),
    ensures
        t.run().state is Sleeping ==> t.events.last().0 < request,
        t.before_last().run().state is Sleeping && t.events.last().0 >= request ==> {
            &&& t.run().state == LoopState::Ended(LoopEnd::StoppedAsleep)
            &&& t.run().started == t.before_last().run().started
            &&& t.events.last().0 <= request + POLL_SEC * second()
        },
    decreases t.events.len(),
{
    lemma_timed_last(t);
    let init = t.before_last();
    let last = t.events.len() - 1;
    assert(reports_stop(t.events[last].1) <==> t.events[last].0 >= request);
    if init.events.len() > 0 {
        assert forall|i: int| 0 <= i < init.events.len() implies (reports_stop(
            (#[trigger] init.events[i]).1,
        ) <==> init.events[i].0 >= request) by {
            assert(init.events[i] == t.events[i]);
        }
        law_stop_is_noticed_soon(init, request);
    } else {
        assert(init.events.map_values(|e: (int, LoopEvent<P>)| e.1).len() == 0);
    }
}

} // verus!
