//! Where the agent keeps its files. Paths are text; how their components are put
//! together depends on the platform.

use vstd::prelude::*;

verus! {

/// How a platform writes paths.
#[derive(Clone, Copy, Debug, PartialEq, Eq, Structural)]
pub enum PathStyle {
    /// `/` separates components.
    Posix,
    /// `\` separates components, `/` is read as a separator too, and a drive letter with
    /// its colon takes none after it.
    Windows,
}

impl PathStyle {
    /// The separator that is written.
    pub open spec fn separator(self) -> char {
        match self {
            PathStyle::Posix => '/',
            PathStyle::Windows => '\\',
        }
    }

    /// `c` separates components.
    pub open spec fn separates(self, c: char) -> bool {
        c == '/' || c == self.separator()
    }

    /// `path` is a drive letter with its colon and nothing else.
    pub open spec fn is_bare_drive(self, path: Seq<char>) -> bool {
        &&& self is Windows
        &&& path.len() == 2
        &&& path[1] == ':'
        &&& 'a' <= path[0] <= 'z' || 'A' <= path[0] <= 'Z'
    }

    /// `text` is not empty and ends in a separator.
    pub open spec fn ends_in_separator(self, text: Seq<char>) -> bool {
        text.len() > 0 && self.separates(text.last())
    }

    /// Whether `text` is not empty and ends in a separator.
    fn has_trailing_separator(self, text: &str) -> (r: bool)
        ensures
            r == self.ends_in_separator(text@),
    {
        let n: usize = text.unicode_len();
        if n == 0 {
            return false;
        }
        let last: char = text.get_char(n - 1);
        match self {
            PathStyle::Posix => last == '/',
            PathStyle::Windows => last == '/' || last == '\\',
        }
    }

    /// Whether `path` is a drive letter with its colon and nothing else.
    fn is_drive_only(self, path: &str) -> (r: bool)
        ensures
            r == self.is_bare_drive(path@),
    {
        match self {
            PathStyle::Posix => false,
            PathStyle::Windows => {
                if path.unicode_len() != 2 {
                    return false;
                }
                let letter: char = path.get_char(0);
                path.get_char(1) == ':' && ('a' <= letter && letter <= 'z' || 'A' <= letter
                    && letter <= 'Z')
            },
        }
    }
}

/// The relative path `rel` below `base`: a separator goes between them unless `base` is
/// empty, ends in one, or is a bare drive.
pub open spec fn joined(style: PathStyle, base: Seq<char>, rel: Seq<char>) -> Seq<char> {
    if base.len() == 0 || style.separates(base.last()) || style.is_bare_drive(base) {
        base + rel
    } else {
        base.push(style.separator()) + rel
    }
}

/// What stands between the separators of `path`, first to last. What is empty, as between
/// two separators, before a leading one or behind a trailing one, is no component.
pub open spec fn components(style: PathStyle, path: Seq<char>) -> Seq<Seq<char>>
    decreases path.len(),
{
    if path.len() == 0 {
        Seq::empty()
    } else {
        let init = path.drop_last();
        let c = path.last();
        if style.separates(c) {
            components(style, init)
        } else if init.len() == 0 || style.separates(init.last()) {
            components(style, init).push(Seq::empty().push(c))
        } else {
            components(style, init).drop_last().push(components(style, init).last().push(c))
        }
    }
}

/// What stands behind the last separator of `path`.
pub open spec fn file_name(style: PathStyle, path: Seq<char>) -> Seq<char>
    decreases path.len(),
{
    if path.len() == 0 || style.separates(path.last()) {
        Seq::empty()
    } else {
        file_name(style, path.drop_last()).push(path.last())
    }
}

/// What stands before the last separator of `path`; nothing where there is none.
pub open spec fn parent(style: PathStyle, path: Seq<char>) -> Seq<char>
    decreases path.len(),
{
    if path.len() == 0 {
        Seq::empty()
    } else if style.separates(path.last()) {
        path.drop_last()
    } else {
        parent(style, path.drop_last())
    }
}

/// What separates components, and what is written between them: `/`, and on Windows `\` as
/// well.
pub proof fn law_separators(c: char)
    ensures
        PathStyle::Posix.separates(c) <==> c == '/',
        PathStyle::Windows.separates(c) <==> c == '/' || c == '\\',
        PathStyle::Posix.separates(PathStyle::Posix.separator()),
        PathStyle::Windows.separates(PathStyle::Windows.separator()),
        PathStyle::Windows.separator() != '/',
{
}

/// A bare drive is a letter with a colon, on Windows only.
pub proof fn law_bare_drives(path: Seq<char>, letter: char)
    ensures
        !PathStyle::Posix.is_bare_drive(path),
        PathStyle::Windows.is_bare_drive(path) ==> path.len() == 2 && path[1] == ':',
        PathStyle::Windows.is_bare_drive(seq![letter, ':']) <==> 'a' <= letter <= 'z' || 'A'
            <= letter <= 'Z',
{
    assert(seq![letter, ':'][0] == letter);
    assert(seq![letter, ':'][1] == ':');
    assert(seq![letter, ':'].len() == 2);
}

proof fn lemma_has_components(style: PathStyle, path: Seq<char>)
    requires
        path.len() > 0,
        !style.separates(path.last()),
    ensures
        components(style, path).len() > 0,
    decreases path.len(),
{
    if path.len() > 1 && !style.separates(path.drop_last().last()) {
        lemma_has_components(style, path.drop_last());
    }
}

/// Behind a separator, or at the beginning, components start anew.
proof fn lemma_components_append(style: PathStyle, base: Seq<char>, rel: Seq<char>)
    requires
        base.len() == 0 || style.separates(base.last()),
    ensures
        components(style, base + rel) == components(style, base) + components(style, rel),
    decreases rel.len(),
{
    if rel.len() == 0 {
        assert(base + rel =~= base);
        assert(components(style, base) + components(style, rel) =~= components(style, base));
    } else {
        let init = rel.drop_last();
        let c = rel.last();
        lemma_components_append(style, base, init);
        assert((base + rel).drop_last() =~= base + init);
        assert((base + rel).last() == c);
        let (x, y) = (components(style, base), components(style, init));
        if style.separates(c) {
        } else if init.len() == 0 || style.separates(init.last()) {
            if init.len() == 0 {
                assert(base + init =~= base);
            } else {
                assert((base + init).last() == init.last());
            }
            assert((x + y).push(Seq::empty().push(c)) =~= x + y.push(Seq::empty().push(c)));
        } else {
            assert((base + init).last() == init.last());
            lemma_has_components(style, init);
            assert((x + y).last() == y.last());
            assert((x + y).drop_last().push(y.last().push(c)) =~= x + y.drop_last().push(
                y.last().push(c),
            ));
        }
    }
}

/// A text without a separator is one component.
pub proof fn lemma_one_component(style: PathStyle, name: Seq<char>)
    requires
        name.len() > 0,
        forall|i: int| 0 <= i < name.len() ==> !style.separates(#[trigger] name[i]),
    ensures
        components(style, name) == seq![name],
    decreases name.len(),
{
    let init = name.drop_last();
    assert(!style.separates(name[name.len() - 1]));
    if init.len() == 0 {
        assert(Seq::empty().push(name.last()) =~= name);
        assert(components(style, init).push(name) =~= seq![name]);
    } else {
        assert forall|i: int| 0 <= i < init.len() implies !style.separates(
            #[trigger] init[i],
        ) by {
            assert(init[i] == name[i]);
        }
        lemma_one_component(style, init);
        assert(!style.separates(init[init.len() - 1]));
        assert(init.push(name.last()) =~= name);
        assert(seq![init].drop_last().push(name) =~= seq![name]);
    }
}

/// A text without a separator, and `/` and more behind it.
pub proof fn lemma_first_component(style: PathStyle, x: Seq<char>, rest: Seq<char>)
    requires
        x.len() > 0,
        forall|i: int| 0 <= i < x.len() ==> !style.separates(#[trigger] x[i]),
    ensures
        components(style, x.push('/') + rest) == seq![x] + components(style, rest),
{
    lemma_one_component(style, x);
    lemma_components_append(style, x.push('/'), rest);
    assert(x.push('/').drop_last() =~= x);
}

/// Two texts without a separator, and `/` between them.
pub proof fn lemma_two_components(style: PathStyle, x: Seq<char>, y: Seq<char>)
    requires
        x.len() > 0,
        y.len() > 0,
        forall|i: int| 0 <= i < x.len() ==> !style.separates(#[trigger] x[i]),
        forall|i: int| 0 <= i < y.len() ==> !style.separates(#[trigger] y[i]),
    ensures
        components(style, x.push('/') + y) == seq![x, y],
{
    lemma_first_component(style, x, y);
    lemma_one_component(style, y);
    assert(seq![x] + seq![y] =~= seq![x, y]);
}

/// Three texts without a separator, and `/` between them.
pub proof fn lemma_three_components(
    style: PathStyle,
    x: Seq<char>,
    y: Seq<char>,
    z: Seq<char>,
)
    requires
        x.len() > 0,
        y.len() > 0,
        z.len() > 0,
        forall|i: int| 0 <= i < x.len() ==> !style.separates(#[trigger] x[i]),
        forall|i: int| 0 <= i < y.len() ==> !style.separates(#[trigger] y[i]),
        forall|i: int| 0 <= i < z.len() ==> !style.separates(#[trigger] z[i]),
    ensures
        components(style, x.push('/') + y.push('/') + z) == seq![x, y, z],
{
    lemma_two_components(style, y, z);
    lemma_first_component(style, x, y.push('/') + z);
    assert(x.push('/') + y.push('/') + z =~= x.push('/') + (y.push('/') + z));
    assert(seq![x] + seq![y, z] =~= seq![x, y, z]);
}

/// What a joined path means: it has the components of the base and then those of the
/// relative path, whatever the two are and however long; and it goes on where the base
/// ends. Only a bare drive has no component of its own that the relative path could
/// follow: the two are one text there.
pub proof fn law_joined_components(style: PathStyle, base: Seq<char>, rel: Seq<char>)
    ensures
        !style.is_bare_drive(base) ==> components(style, joined(style, base, rel)) == components(
            style,
            base,
        ) + components(style, rel),
        style.is_bare_drive(base) ==> joined(style, base, rel) == base + rel,
        joined(style, base, rel).take(base.len() as int) == base,
        joined(style, base, rel).len() <= base.len() + 1 + rel.len(),
        joined(style, base, rel).skip(joined(style, base, rel).len() - rel.len()) == rel,
{
    if base.len() == 0 || style.separates(base.last()) {
        lemma_components_append(style, base, rel);
    } else if !style.is_bare_drive(base) {
        let sep = style.separator();
        lemma_components_append(style, base.push(sep), rel);
        assert(base.push(sep).drop_last() =~= base);
    }
    assert(joined(style, base, rel).take(base.len() as int) =~= base);
    assert(joined(style, base, rel).skip(joined(style, base, rel).len() - rel.len()) =~= rel);
}

/// Between a base and a name exactly one separator stands: where the base brings none, one
/// is put there, and where it ends in one, or is empty, none is.
pub proof fn law_join_puts_one_separator(base: Seq<char>, rel: Seq<char>)
    ensures
        base.len() > 0 && base.last() != '/' ==> joined(PathStyle::Posix, base, rel) == base
            + "/"@ + rel,
        base.len() == 0 || base.last() == '/' ==> joined(PathStyle::Posix, base, rel) == base
            + rel,
        base.len() > 0 && base.last() != '/' && base.last() != '\\' && !(base.len() == 2
            && base.last() == ':') ==> joined(PathStyle::Windows, base, rel) == base + "\\"@
            + rel,
        base.len() == 0 || base.last() == '/' || base.last() == '\\' ==> joined(
            PathStyle::Windows,
            base,
            rel,
        ) == base + rel,
{
    reveal_strlit("/");
    reveal_strlit("\\");
    assert(base + "/"@ =~= base.push('/'));
    assert(base + "\\"@ =~= base.push('\\'));
}

proof fn lemma_file_name_append(style: PathStyle, base: Seq<char>, name: Seq<char>)
    requires
        base.len() > 0,
        style.separates(base.last()),
        forall|i: int| 0 <= i < name.len() ==> !style.separates(#[trigger] name[i]),
    ensures
        file_name(style, base + name) == name,
        parent(style, base + name) == base.drop_last(),
    decreases name.len(),
{
    if name.len() == 0 {
        assert(base + name =~= base);
        assert(name =~= Seq::empty());
    } else {
        let init = name.drop_last();
        assert forall|i: int| 0 <= i < init.len() implies !style.separates(
            #[trigger] init[i],
        ) by {
            assert(init[i] == name[i]);
        }
        assert(!style.separates(name[name.len() - 1]));
        lemma_file_name_append(style, base, init);
        assert((base + name).drop_last() =~= base + init);
        assert(init.push(name.last()) =~= name);
    }
}

/// A name below a directory: what stands behind the last separator is the name, and what
/// stands before it is the directory, as it was given.
pub proof fn law_joined_has_parent_and_name(style: PathStyle, dir: Seq<char>, name: Seq<char>)
    requires
        !style.is_bare_drive(dir),
        forall|i: int| 0 <= i < name.len() ==> !style.separates(#[trigger] name[i]),
    ensures
        dir.len() > 0 ==> file_name(style, joined(style, dir, name)) == name,
        dir.len() > 0 && !style.separates(dir.last()) ==> parent(
            style,
            joined(style, dir, name),
        ) == dir,
{
    if dir.len() > 0 {
        if style.separates(dir.last()) {
            lemma_file_name_append(style, dir, name);
        } else {
            let sep = style.separator();
            lemma_file_name_append(style, dir.push(sep), name);
            assert(dir.push(sep).drop_last() =~= dir);
        }
    }
}

/// The relative path `rel` below `base`. A path that begins with a separator, or with a
/// drive, is not relative.
pub(crate) fn join(style: PathStyle, base: &str, rel: &str) -> (r: String)
    requires
        rel@.len() >= 2,
        !style.separates(rel@[0]),
        rel@[1] != ':',
    ensures
        r@ == joined(style, base@, rel@),
{
    let mut out: String = base.to_string();
    if !(base.is_empty() || style.has_trailing_separator(base) || style.is_drive_only(base)) {
        out.push(
            match style {
                PathStyle::Posix => '/',
                PathStyle::Windows => '\\',
            },
        );
    }
    out.append(rel);
    out
}

/// What `str::to_lowercase` returns for the text `s`.
pub uninterp spec fn lowercase(s: Seq<char>) -> Seq<char>;

/// ASCII text with `A` to `Z` mapped to `a` to `z`, character by character.
pub open spec fn ascii_lowered(s: Seq<char>) -> Seq<char> {
    Seq::new(
        s.len(),
        |i: int|
            if 'A' <= s[i] <= 'Z' {
                ((s[i] as u32) + 32) as char
            } else {
                s[i]
            },
    )
}

/// Calls `str::to_lowercase`, which maps text to its lowercase equivalent by the
/// Unicode tables. The tables are not written out here: the contract says that the
/// result depends on the text alone, and that of ASCII text, whose characters
/// `str::to_lowercase` lowers as `str::to_ascii_lowercase` does, the letters `A` to `Z`
/// become `a` to `z` and nothing else changes.
#[verifier::external_body]
fn to_lowercase(s: &str) -> (r: String)
    ensures
        r@ == lowercase(s@),
        vstd::utf8::is_ascii_chars(s@) ==> r@ == ascii_lowered(s@),
{
    s.to_lowercase()
}

/// The home directory; `/root` where none is known.
pub open spec fn home_or_root(home: Option<Seq<char>>) -> Seq<char> {
    match home {
        Some(h) => h,
        None => "/root"@,
    }
}

/// The directory of the agent's own files.
pub open spec fn agent_dir(style: PathStyle, home: Option<Seq<char>>) -> Seq<char> {
    joined(style, home_or_root(home), ".ardi-agent"@)
}

/// The name, without its extension, of the files that belong to an agent whose
/// lowercase address is `address`; `state` while no address is known.
pub open spec fn state_stem(address: Option<Seq<char>>) -> Seq<char> {
    match address {
        Some(a) => "state-"@ + a,
        None => "state"@,
    }
}

/// The name, without its extension, of the files beside the state file. They take the
/// place of its extension; only where the address ends in a separator is `.json` a name
/// of its own, without an extension, and stays.
pub open spec fn sibling_stem(style: PathStyle, address: Option<Seq<char>>) -> Seq<char> {
    if style.ends_in_separator(state_stem(address)) {
        state_stem(address) + ".json"@
    } else {
        state_stem(address)
    }
}

/// The text inside an optional string.
pub open spec fn opt_view(s: Option<String>) -> Option<Seq<char>> {
    match s {
        Some(t) => Some(t@),
        None => None,
    }
}

/// The text inside an optional string is there if and only if the string is.
pub proof fn law_opt_view(s: Option<String>)
    ensures
        s matches Some(t) ==> opt_view(s) == Some(t@),
        s is None ==> opt_view(s) is None,
{
}

/// The address in lowercase, where there is one: of an ASCII address, as every wallet
/// address is, the letters `A` to `Z` are lowered and nothing else; any other is lowered as
/// `str::to_lowercase` does.
pub open spec fn lowered(address: Option<Seq<char>>) -> Option<Seq<char>> {
    match address {
        Some(a) => if vstd::utf8::is_ascii_chars(a) {
            Some(ascii_lowered(a))
        } else {
            Some(lowercase(a))
        },
        None => None,
    }
}

/// The three files that an update of the state works on.
pub struct StatePaths {
    /// The state itself.
    pub state: String,
    /// The file whose lock every update holds.
    pub lock: String,
    /// What is written before it replaces the state.
    pub temp: String,
}

impl StatePaths {
    /// The paths of an agent, given its home directory and its lowercase address.
    pub open spec fn are_for(
        self,
        style: PathStyle,
        home: Option<Seq<char>>,
        address: Option<Seq<char>>,
    ) -> bool {
        &&& self.state@ == state_file(style, home, address)
        &&& self.lock@ == lock_file(style, home, address)
        &&& self.temp@ == temp_file(style, home, address)
    }
}

/// The state file.
pub open spec fn state_file(
    style: PathStyle,
    home: Option<Seq<char>>,
    address: Option<Seq<char>>,
) -> Seq<char> {
    joined(style, agent_dir(style, home), state_stem(address) + ".json"@)
}

/// The lock file.
pub open spec fn lock_file(
    style: PathStyle,
    home: Option<Seq<char>>,
    address: Option<Seq<char>>,
) -> Seq<char> {
    joined(style, agent_dir(style, home), sibling_stem(style, address) + ".lock"@)
}

/// The temporary file.
pub open spec fn temp_file(
    style: PathStyle,
    home: Option<Seq<char>>,
    address: Option<Seq<char>>,
) -> Seq<char> {
    joined(style, agent_dir(style, home), sibling_stem(style, address) + ".json.tmp"@)
}

/// The files of an agent whose address is already in lowercase.
pub fn state_paths_for(
    style: PathStyle,
    home: Option<String>,
    address: Option<String>,
) -> (r: StatePaths)
    ensures
        r.are_for(style, opt_view(home), opt_view(address)),
{
    let ghost lower = opt_view(address);
    let home: String = match home {
        Some(h) => h,
        None => "/root".to_string(),
    };
    proof {
        reveal_strlit(".ardi-agent");
        lemma_stem_begins(lower, ".json"@);
        lemma_sibling_begins(style, lower, ".lock"@);
        lemma_sibling_begins(style, lower, ".json.tmp"@);
    }
    let dir: String = join(style, home.as_str(), ".ardi-agent");
    let stem: String = match address {
        Some(a) => "state-".to_string().concat(a.as_str()),
        None => "state".to_string(),
    };
    let sibling: String = if style.has_trailing_separator(stem.as_str()) {
        stem.clone().concat(".json")
    } else {
        stem.clone()
    };
    StatePaths {
        state: join(style, dir.as_str(), stem.concat(".json").as_str()),
        lock: join(style, dir.as_str(), sibling.clone().concat(".lock").as_str()),
        temp: join(style, dir.as_str(), sibling.concat(".json.tmp").as_str()),
    }
}

/// Per-agent state files. Each agent address gets its own, in lowercase, so that two
/// wallets on one machine never clash; while no address is known the name is plain
/// `state.json`.
pub fn state_paths(
    style: PathStyle,
    home: Option<String>,
    address: Option<String>,
) -> (r: StatePaths)
    ensures
        r.are_for(style, opt_view(home), lowered(opt_view(address))),
        address is None ==> r.are_for(style, opt_view(home), None),
        address matches Some(a) ==> {
            &&& r.are_for(style, opt_view(home), Some(lowercase(a@)))
            &&& r.state@ != state_file(style, opt_view(home), None)
            &&& vstd::utf8::is_ascii_chars(a@) ==> r.are_for(
                style,
                opt_view(home),
                Some(ascii_lowered(a@)),
            )
        },
{
    proof {
        if address is Some {
            law_agents_do_not_clash(
                style,
                opt_view(home),
                Some(lowercase(address->0@)),
                None,
            );
        }
    }
    let address: Option<String> = match address {
        Some(a) => Some(to_lowercase(a.as_str())),
        None => None,
    };
    state_paths_for(style, home, address)
}

/// Below one directory, paths differ where the relative paths do.
proof fn lemma_joined_injective(style: PathStyle, dir: Seq<char>, x: Seq<char>, y: Seq<char>)
    requires
        joined(style, dir, x) == joined(style, dir, y),
    ensures
        x == y,
{
    let n = joined(style, dir, x).len() - x.len();
    assert(joined(style, dir, x).skip(n) =~= x);
    assert(joined(style, dir, y).skip(n) =~= y);
}

proof fn lemma_stem_begins(address: Option<Seq<char>>, ext: Seq<char>)
    ensures
        (state_stem(address) + ext).len() >= 2,
        (state_stem(address) + ext)[0] == 's',
        (state_stem(address) + ext)[1] == 't',
{
    reveal_strlit("state-");
    reveal_strlit("state");
}

proof fn lemma_sibling_begins(style: PathStyle, address: Option<Seq<char>>, ext: Seq<char>)
    ensures
        (sibling_stem(style, address) + ext).len() >= 2,
        (sibling_stem(style, address) + ext)[0] == 's',
        (sibling_stem(style, address) + ext)[1] == 't',
{
    reveal_strlit("state-");
    reveal_strlit("state");
}

/// Different addresses have different stems.
proof fn lemma_stem_injective(a: Option<Seq<char>>, b: Option<Seq<char>>)
    requires
        state_stem(a) == state_stem(b),
    ensures
        a == b,
{
    reveal_strlit("state-");
    reveal_strlit("state");
    match (a, b) {
        (Some(p), Some(q)) => {
            assert(p =~= state_stem(a).skip(6));
            assert(q =~= state_stem(b).skip(6));
        },
        _ => {
            assert(state_stem(a).len() == state_stem(b).len());
            assert("state-"@.len() == 6 && "state"@.len() == 5);
        },
    }
}

/// `x + ext` determines `x`.
proof fn lemma_drop_suffix(x: Seq<char>, y: Seq<char>, ext: Seq<char>)
    requires
        x + ext == y + ext,
    ensures
        x == y,
{
    assert((x + ext).len() == x.len() + ext.len());
    assert((y + ext).len() == y.len() + ext.len());
    assert(x =~= (x + ext).take(x.len() as int));
    assert(y =~= (y + ext).take(y.len() as int));
}

/// The address `a` ends in a separator, and `b` is `a` with `.json` behind it.
pub open spec fn mimics(
    style: PathStyle,
    a: Option<Seq<char>>,
    b: Option<Seq<char>>,
) -> bool {
    &&& a matches Some(p)
    &&& style.ends_in_separator(p)
    &&& b == Some(p + ".json"@)
}

/// A name of its own `.json` meets the stem of another address only where that address
/// mimics this one.
proof fn lemma_hidden_name(style: PathStyle, a: Option<Seq<char>>, b: Option<Seq<char>>)
    requires
        style.ends_in_separator(state_stem(a)),
        state_stem(a) + ".json"@ == state_stem(b),
    ensures
        mimics(style, a, b),
{
    reveal_strlit("state-");
    reveal_strlit("state");
    reveal_strlit(".json");
    let x = state_stem(a);
    assert(a is Some);
    assert(a->0.len() > 0) by {
        assert(x[5] == '-');
        assert(!style.separates('-'));
    }
    assert(x.last() == a->0.last());
    assert(state_stem(b) =~= "state-"@ + (a->0 + ".json"@));
    lemma_stem_injective(b, Some(a->0 + ".json"@));
}

/// Different addresses have different sibling stems, unless one mimics the other.
proof fn lemma_sibling_injective(style: PathStyle, a: Option<Seq<char>>, b: Option<Seq<char>>)
    requires
        sibling_stem(style, a) == sibling_stem(style, b),
        !mimics(style, a, b),
        !mimics(style, b, a),
    ensures
        a == b,
{
    let (x, y) = (state_stem(a), state_stem(b));
    if style.ends_in_separator(x) && style.ends_in_separator(y) {
        lemma_drop_suffix(x, y, ".json"@);
        lemma_stem_injective(a, b);
    } else if style.ends_in_separator(x) {
        lemma_hidden_name(style, a, b);
    } else if style.ends_in_separator(y) {
        lemma_hidden_name(style, b, a);
    } else {
        lemma_stem_injective(a, b);
    }
}

/// Two agents on one machine never share a file: where their lowercase addresses
/// differ, or one has no address yet, so do their state files; and so do their lock
/// files and their temporary files, unless one address ends in a separator and the
/// other is the same with `.json` behind it.
pub proof fn law_agents_do_not_clash(
    style: PathStyle,
    home: Option<Seq<char>>,
    a: Option<Seq<char>>,
    b: Option<Seq<char>>,
)
    requires
        a != b,
    ensures
        state_file(style, home, a) != state_file(style, home, b),
        !mimics(style, a, b) && !mimics(style, b, a) ==> {
            &&& lock_file(style, home, a) != lock_file(style, home, b)
            &&& temp_file(style, home, a) != temp_file(style, home, b)
        },
{
    let dir = agent_dir(style, home);
    if state_file(style, home, a) == state_file(style, home, b) {
        let (x, y) = (state_stem(a), state_stem(b));
        lemma_joined_injective(style, dir, x + ".json"@, y + ".json"@);
        lemma_drop_suffix(x, y, ".json"@);
        lemma_stem_injective(a, b);
    }
    if !mimics(style, a, b) && !mimics(style, b, a) {
        let (x, y) = (sibling_stem(style, a), sibling_stem(style, b));
        if lock_file(style, home, a) == lock_file(style, home, b) {
            lemma_joined_injective(style, dir, x + ".lock"@, y + ".lock"@);
            lemma_drop_suffix(x, y, ".lock"@);
            lemma_sibling_injective(style, a, b);
        }
        if temp_file(style, home, a) == temp_file(style, home, b) {
            lemma_joined_injective(style, dir, x + ".json.tmp"@, y + ".json.tmp"@);
            lemma_drop_suffix(x, y, ".json.tmp"@);
            lemma_sibling_injective(style, a, b);
        }
    }
}

/// `x` and `y` are one character, or the capital and the small form of one ASCII letter.
pub open spec fn same_but_case(x: char, y: char) -> bool {
    ||| x == y
    ||| 'A' <= x <= 'Z' && y as u32 == x as u32 + 32
    ||| 'A' <= y <= 'Z' && x as u32 == y as u32 + 32
}

/// ASCII lowercase: the text keeps its length, has no capital letter left, and is the
/// same for two texts if and only if they differ in the case of letters alone.
pub proof fn law_ascii_lowered(a: Seq<char>, b: Seq<char>)
    requires
        vstd::utf8::is_ascii_chars(a),
        vstd::utf8::is_ascii_chars(b),
    ensures
        ascii_lowered(a).len() == a.len(),
        forall|i: int|
            0 <= i < a.len() ==> same_but_case(a[i], #[trigger] ascii_lowered(a)[i]) && !('A'
                <= ascii_lowered(a)[i] <= 'Z'),
        ascii_lowered(a) == ascii_lowered(b) <==> a.len() == b.len() && forall|i: int|
            0 <= i < a.len() ==> same_but_case(#[trigger] a[i], b[i]),
{
    let (x, y) = (ascii_lowered(a), ascii_lowered(b));
    if x == y {
        assert(a.len() == x.len() && b.len() == y.len());
        assert forall|i: int| 0 <= i < a.len() implies same_but_case(#[trigger] a[i], b[i]) by {
            assert(x[i] == y[i]);
        }
    }
    if a.len() == b.len() && (forall|i: int|
        0 <= i < a.len() ==> same_but_case(#[trigger] a[i], b[i])) {
        assert forall|i: int| 0 <= i < a.len() implies x[i] == y[i] by {
            assert(same_but_case(a[i], b[i]));
            assert('\0' <= b[i] <= '\u{7f}');
        }
        assert(x =~= y);
    }
}

/// Two wallets on one machine never clash, whatever their ASCII addresses are and however
/// long: two addresses have one state file if and only if they differ in the case of
/// letters alone, and a known address never has the file that belongs to no address. The
/// same holds of their lock and temporary files, unless one address ends in a separator.
pub proof fn law_wallets_do_not_clash(
    style: PathStyle,
    home: Option<Seq<char>>,
    a: Seq<char>,
    b: Seq<char>,
)
    requires
        vstd::utf8::is_ascii_chars(a),
        vstd::utf8::is_ascii_chars(b),
    ensures
        ({
            let (x, y, none) = (lowered(Some(a)), lowered(Some(b)), lowered(None));
            let one = a.len() == b.len() && forall|i: int|
                0 <= i < a.len() ==> same_but_case(#[trigger] a[i], b[i]);
            &&& state_file(style, home, x) == state_file(style, home, y) <==> one
            &&& state_file(style, home, x) != state_file(style, home, none)
            &&& !style.ends_in_separator(a) && !style.ends_in_separator(b) ==> {
                &&& lock_file(style, home, x) == lock_file(style, home, y) <==> one
                &&& temp_file(style, home, x) == temp_file(style, home, y) <==> one
                &&& lock_file(style, home, x) != lock_file(style, home, none)
                &&& temp_file(style, home, x) != temp_file(style, home, none)
            }
        }),
{
    law_ascii_lowered(a, b);
    let (x, y) = (ascii_lowered(a), ascii_lowered(b));
    if x != y {
        law_agents_do_not_clash(style, home, Some(x), Some(y));
    }
    law_agents_do_not_clash(style, home, Some(x), None);
    if !style.ends_in_separator(a) && !style.ends_in_separator(b) {
        lemma_lowered_ends_alike(style, a);
        lemma_lowered_ends_alike(style, b);
    }
}

/// A known address, ASCII or not, never has the file that belongs to no address; and no
/// address stays no address.
pub proof fn law_known_address_has_its_own_file(
    style: PathStyle,
    home: Option<Seq<char>>,
    a: Seq<char>,
)
    ensures
        lowered(Some(a)) is Some,
        lowered(None) is None,
        state_file(style, home, lowered(Some(a))) != state_file(style, home, lowered(None)),
{
    law_agents_do_not_clash(style, home, lowered(Some(a)), None);
}

/// The name of the state file of a wallet: for an ASCII address of any length without a
/// separator it is `state-`, the address character by character with `A` to `Z` in small
/// letters, and `.json`.
pub proof fn law_wallet_file_name(
    style: PathStyle,
    home: Option<Seq<char>>,
    a: Seq<char>,
    i: int,
)
    requires
        home matches Some(h) ==> !style.is_bare_drive(h),
        vstd::utf8::is_ascii_chars(a),
        forall|j: int| 0 <= j < a.len() ==> !style.separates(#[trigger] a[j]),
        0 <= i < a.len(),
    ensures
        ({
            let name = file_name(style, state_file(style, home, lowered(Some(a))));
            &&& name.len() == 6 + a.len() + 5
            &&& name.take(6) == "state-"@
            &&& name.skip(6 + a.len() as int) == ".json"@
            &&& 'A' <= a[i] <= 'Z' ==> name[6 + i] as u32 == a[i] as u32 + 32
            &&& !('A' <= a[i] <= 'Z') ==> name[6 + i] == a[i]
        }),
{
    let x = ascii_lowered(a);
    assert forall|j: int| 0 <= j < x.len() implies !style.separates(#[trigger] x[j]) by {
        assert(!style.separates(a[j]));
    }
    law_state_file_names(style, home, x);
    reveal_strlit("state-");
    reveal_strlit(".json");
    let name = "state-"@ + x + ".json"@;
    assert(name.take(6) =~= "state-"@);
    assert(name.skip(6 + a.len() as int) =~= ".json"@);
    assert(name[6 + i] == x[i]);
}

proof fn lemma_lowered_ends_alike(style: PathStyle, a: Seq<char>)
    requires
        vstd::utf8::is_ascii_chars(a),
        !style.ends_in_separator(a),
    ensures
        !style.ends_in_separator(ascii_lowered(a)),
{
    law_ascii_lowered(a, a);
    if a.len() > 0 {
        let last = a.len() - 1;
        assert(same_but_case(a[last], ascii_lowered(a)[last]));
    }
}

/// Where the files of an agent lie and what they are called: in `.ardi-agent` below the
/// home, which is `/root` where none is known, and there `state-`, the address and
/// `.json`; `.lock` or `.json.tmp` stand in the place of `.json` for the other two. While
/// no address is known `state` stands alone before these.
#[verifier::rlimit(40)]
pub proof fn law_state_file_names(
    style: PathStyle,
    home: Option<Seq<char>>,
    a: Seq<char>,
)
    requires
        home matches Some(h) ==> !style.is_bare_drive(h),
        forall|i: int| 0 <= i < a.len() ==> !style.separates(#[trigger] a[i]),
    ensures
        ({
            let dir = components(style, match home {
                Some(h) => h,
                None => "/root"@,
            }).push(".ardi-agent"@);
            &&& components(style, state_file(style, home, Some(a))) == dir.push(
                "state-"@ + a + ".json"@,
            )
            &&& components(style, lock_file(style, home, Some(a))) == dir.push(
                "state-"@ + a + ".lock"@,
            )
            &&& components(style, temp_file(style, home, Some(a))) == dir.push(
                "state-"@ + a + ".json.tmp"@,
            )
            &&& components(style, state_file(style, home, None)) == dir.push("state.json"@)
            &&& components(style, lock_file(style, home, None)) == dir.push("state.lock"@)
            &&& components(style, temp_file(style, home, None)) == dir.push("state.json.tmp"@)
        }),
        file_name(style, state_file(style, home, Some(a))) == "state-"@ + a + ".json"@,
        file_name(style, lock_file(style, home, Some(a))) == "state-"@ + a + ".lock"@,
        file_name(style, temp_file(style, home, Some(a))) == "state-"@ + a + ".json.tmp"@,
        file_name(style, state_file(style, home, None)) == "state.json"@,
        file_name(style, lock_file(style, home, None)) == "state.lock"@,
        file_name(style, temp_file(style, home, None)) == "state.json.tmp"@,
{
    reveal_strlit("state-");
    reveal_strlit("state");
    reveal_strlit("state.json");
    reveal_strlit("state.lock");
    reveal_strlit("state.json.tmp");
    assert("state"@ + ".json"@ =~= "state.json"@) by {
        reveal_strlit(".json");
    }
    assert("state"@ + ".lock"@ =~= "state.lock"@) by {
        reveal_strlit(".lock");
    }
    assert("state"@ + ".json.tmp"@ =~= "state.json.tmp"@) by {
        reveal_strlit(".json.tmp");
    }
    let stem = "state-"@ + a;
    assert(is_plain(style, stem));
    assert(is_plain(style, "state"@));
    assert(!style.ends_in_separator(stem)) by {
        assert(!style.separates(stem[stem.len() - 1]));
    }
    assert(!style.ends_in_separator("state"@));
    lemma_plain_extensions(style);
    lemma_file_in_agent_dir(style, home, stem, ".json"@);
    lemma_file_in_agent_dir(style, home, stem, ".lock"@);
    lemma_file_in_agent_dir(style, home, stem, ".json.tmp"@);
    lemma_file_in_agent_dir(style, home, "state"@, ".json"@);
    lemma_file_in_agent_dir(style, home, "state"@, ".lock"@);
    lemma_file_in_agent_dir(style, home, "state"@, ".json.tmp"@);
}

/// The same of every address, also of one that holds separators: each file is the text
/// `state-`, the address and the extension, below `.ardi-agent` below the home. Where the
/// address ends in a separator, `.json` is a name of its own and stays before the other
/// two extensions.
pub proof fn law_state_files_of_any_address(
    style: PathStyle,
    home: Option<Seq<char>>,
    a: Seq<char>,
)
    ensures
        ({
            let top = match home {
                Some(h) => h,
                None => "/root"@,
            };
            let dir = joined(style, top, ".ardi-agent"@);
            let stem = "state-"@ + a;
            let slashed = a.len() > 0 && style.separates(a.last());
            &&& state_file(style, home, Some(a)) == joined(style, dir, stem + ".json"@)
            &&& !slashed ==> {
                &&& lock_file(style, home, Some(a)) == joined(style, dir, stem + ".lock"@)
                &&& temp_file(style, home, Some(a)) == joined(style, dir, stem + ".json.tmp"@)
            }
            &&& slashed ==> {
                &&& lock_file(style, home, Some(a)) == joined(
                    style,
                    dir,
                    stem + ".json"@ + ".lock"@,
                )
                &&& temp_file(style, home, Some(a)) == joined(
                    style,
                    dir,
                    stem + ".json"@ + ".json.tmp"@,
                )
            }
            &&& state_file(style, home, None) == joined(style, dir, "state"@ + ".json"@)
            &&& lock_file(style, home, None) == joined(style, dir, "state"@ + ".lock"@)
            &&& temp_file(style, home, None) == joined(style, dir, "state"@ + ".json.tmp"@)
        }),
{
    reveal_strlit("state-");
    reveal_strlit("state");
    let stem = "state-"@ + a;
    if a.len() > 0 {
        assert(stem.last() == a.last());
    } else {
        assert(stem.last() == '-');
    }
}

/// `text` holds no separator.
pub open spec fn is_plain(style: PathStyle, text: Seq<char>) -> bool {
    forall|i: int| 0 <= i < text.len() ==> !style.separates(#[trigger] text[i])
}

/// No extension brings a separator.
proof fn lemma_plain_extensions(style: PathStyle)
    ensures
        is_plain(style, ".json"@) && ".json"@.len() > 0,
        is_plain(style, ".lock"@) && ".lock"@.len() > 0,
        is_plain(style, ".json.tmp"@) && ".json.tmp"@.len() > 0,
{
    reveal_strlit(".json");
    reveal_strlit(".lock");
    reveal_strlit(".json.tmp");
}

/// A name in the agent's directory.
proof fn lemma_file_in_agent_dir(
    style: PathStyle,
    home: Option<Seq<char>>,
    stem: Seq<char>,
    ext: Seq<char>,
)
    requires
        home matches Some(h) ==> !style.is_bare_drive(h),
        is_plain(style, stem),
        is_plain(style, ext),
        ext.len() > 0,
    ensures
        components(style, joined(style, agent_dir(style, home), stem + ext)) == components(
            style,
            match home {
                Some(h) => h,
                None => "/root"@,
            },
        ).push(".ardi-agent"@).push(stem + ext),
        file_name(style, joined(style, agent_dir(style, home), stem + ext)) == stem + ext,
{
    let name = stem + ext;
    assert(is_plain(style, name));
    let top = home_or_root(home);
    let dir = agent_dir(style, home);
    lemma_agent_dir(style, home);
    law_joined_components(style, dir, name);
    lemma_one_component(style, name);
    law_joined_has_parent_and_name(style, dir, name);
    let x = components(style, top);
    assert(x.push(".ardi-agent"@) + seq![name] =~= x.push(".ardi-agent"@).push(name));
}

/// The agent's directory is one component below the home.
proof fn lemma_agent_dir(style: PathStyle, home: Option<Seq<char>>)
    requires
        home matches Some(h) ==> !style.is_bare_drive(h),
    ensures
        components(style, agent_dir(style, home)) == components(style, home_or_root(home)).push(
            ".ardi-agent"@,
        ),
        agent_dir(style, home).len() > 2,
        !style.is_bare_drive(agent_dir(style, home)),
{
    reveal_strlit("/root");
    reveal_strlit(".ardi-agent");
    let top = home_or_root(home);
    law_joined_components(style, top, ".ardi-agent"@);
    lemma_one_component(style, ".ardi-agent"@);
    let x = components(style, top);
    assert(x + seq![".ardi-agent"@] =~= x.push(".ardi-agent"@));
}

/// No state file is a lock file or a temporary file, and no lock file is a temporary
/// file, of the same agent or of another.
pub proof fn law_file_kinds_differ(
    style: PathStyle,
    home: Option<Seq<char>>,
    a: Option<Seq<char>>,
    b: Option<Seq<char>>,
)
    ensures
        state_file(style, home, a) != lock_file(style, home, b),
        state_file(style, home, a) != temp_file(style, home, b),
        lock_file(style, home, a) != temp_file(style, home, b),
{
    reveal_strlit(".json");
    reveal_strlit(".lock");
    reveal_strlit(".json.tmp");
    assert(state_file(style, home, a).last() == 'n');
    assert(lock_file(style, home, b).last() == 'k');
    assert(lock_file(style, home, a).last() == 'k');
    assert(temp_file(style, home, b).last() == 'p');
}

} // verus!
