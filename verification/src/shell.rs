//! Text for a POSIX shell: the single-quote escape, the command that runs one
//! tick, and a model of how a shell reads such text.

use vstd::prelude::*;

verus! {

/// What one character of a single-quoted string is written as: a single quote
/// closes the quotes, stands escaped, and opens them again; every other character
/// stands for itself.
pub open spec fn escaped_char(c: char) -> Seq<char> {
    if c == '\'' {
        "'\\''"@
    } else {
        seq![c]
    }
}

/// `s` with each single quote written as `'\''`.
pub open spec fn escaped(s: Seq<char>) -> Seq<char>
    decreases s.len(),
{
    if s.len() == 0 {
        Seq::empty()
    } else {
        escaped(s.drop_last()) + escaped_char(s.last())
    }
}

/// `s` between single quotes, with each single quote in it written as `'\''`.
pub open spec fn quoted(s: Seq<char>) -> Seq<char> {
    "'"@ + escaped(s) + "'"@
}

/// Minimal POSIX-shell single-quote escape: the text is wrapped in single quotes, and
/// each embedded single quote is written as `'\''`. Safe for paths that hold spaces or
/// shell metacharacters.
pub fn sh_escape(s: &str) -> (r: String)
    ensures
        r@ == quoted(s@),
{
    let mut out: String = "'".to_string();
    for c in it: s.chars()
        invariant
            it.seq() == s@,
            out@ == "'"@ + escaped(s@.take(it.index() as int)),
    {
        proof {
            let i = it.index() as int;
            assert(s@.take(i + 1).drop_last() =~= s@.take(i));
            assert(s@.take(i + 1).last() == c);
        }
        let ghost before = out@;
        if c == '\'' {
            out.append("'\\''");
        } else {
            out.push(c);
        }
        assert(out@ =~= before + escaped_char(c));
    }
    assert(s@.take(s@.len() as int) =~= s@);
    out.append("'");
    out
}

/// Text is escaped letter by letter: two texts in a row are escaped as each of them is, a
/// letter other than a single quote stands for itself, and a single quote closes the
/// quotes, stands behind a backslash, and opens them again. Quoted text begins and ends
/// with a single quote, whatever it holds.
pub proof fn law_escape_goes_letter_by_letter(s: Seq<char>, t: Seq<char>, c: char)
    ensures
        escaped(s + t) == escaped(s) + escaped(t),
        c != '\'' ==> escaped(seq![c]) == seq![c],
        escaped(seq!['\'']) == seq!['\'', '\\', '\'', '\''],
        escaped(Seq::empty()) == Seq::<char>::empty(),
        quoted(s) == seq!['\''] + escaped(s) + seq!['\''],
    decreases t.len(),
{
    reveal_strlit("'");
    reveal_strlit("'\\''");
    assert("'"@ =~= seq!['\'']);
    assert("'\\''"@ =~= seq!['\'', '\\', '\'', '\'']);
    assert(seq![c].drop_last() =~= Seq::<char>::empty());
    assert(seq!['\''].drop_last() =~= Seq::<char>::empty());
    assert(escaped(seq![c].drop_last()) =~= Seq::<char>::empty());
    assert(escaped(seq![c]) =~= escaped_char(c)) by {
        assert(seq![c].last() == c);
    }
    assert(escaped(seq!['\'']) =~= escaped_char('\'')) by {
        assert(seq!['\''].last() == '\'');
    }
    if t.len() == 0 {
        assert(s + t =~= s);
        assert(escaped(s) + escaped(t) =~= escaped(s));
    } else {
        law_escape_goes_letter_by_letter(s, t.drop_last(), c);
        assert((s + t).drop_last() =~= s + t.drop_last());
        assert(escaped(s) + (escaped(t.drop_last()) + escaped_char(t.last())) =~= escaped(s)
            + escaped(t.drop_last()) + escaped_char(t.last()));
    }
}

/// Text without a single quote stands in its quotes as it is.
pub proof fn law_plain_text_is_only_wrapped(s: Seq<char>)
    requires
        forall|i: int| 0 <= i < s.len() ==> (#[trigger] s[i]) != '\'',
    ensures
        escaped(s) == s,
        quoted(s) == seq!['\''] + s + seq!['\''],
    decreases s.len(),
{
    law_escape_goes_letter_by_letter(s, Seq::empty(), 'a');
    if s.len() > 0 {
        let init = s.drop_last();
        assert forall|i: int| 0 <= i < init.len() implies (#[trigger] init[i]) != '\'' by {
            assert(init[i] == s[i]);
        }
        law_plain_text_is_only_wrapped(init);
        assert(s[s.len() - 1] != '\'');
        assert(init + seq![s.last()] =~= s);
    }
}

/// The command line that runs one tick: it exports what the environment file sets,
/// where that file can be read, and hands over to the tick script.
pub open spec fn tick_command_text(env_file: Seq<char>, tick: Seq<char>) -> Seq<char> {
    "set -a; [ -r "@ + quoted(env_file) + " ] && . "@ + quoted(env_file) + "; exec "@ + quoted(
        tick,
    )
}

/// The command line that `bash -c` is given for one tick.
pub fn tick_command(env_file: &str, tick: &str) -> (r: String)
    ensures
        r@ == tick_command_text(env_file@, tick@),
        r@ == "set -a; [ -r "@ + quoted(env_file@) + " ] && . "@ + quoted(env_file@)
            + "; exec "@ + quoted(tick@),
{
    let env: String = sh_escape(env_file);
    let script: String = sh_escape(tick);
    let mut out: String = "set -a; [ -r ".to_string();
    out.append(env.as_str());
    out.append(" ] && . ");
    out.append(env.as_str());
    out.append("; exec ");
    out.append(script.as_str());
    out
}

/// A token that a shell reads.
pub enum ShToken {
    /// A word, after its quotes and backslashes are gone.
    Word(Seq<char>),
    /// `;`
    Semi,
    /// `&&`
    AndIf,
}

/// How a reader takes the next character.
pub enum ShMode {
    /// Outside quotes.
    Bare,
    /// Between single quotes.
    Quoted,
    /// After a backslash.
    Escaped,
    /// After the first `&`.
    Ampersand,
    /// After a character whose meaning this model does not cover.
    Refused,
}

/// A shell in the middle of reading a command line.
pub struct ShReader {
    pub mode: ShMode,
    pub word: Option<Seq<char>>,
    pub tokens: Seq<ShToken>,
}

impl ShReader {
    /// Before the first character.
    pub open spec fn start() -> ShReader {
        ShReader { mode: ShMode::Bare, word: None, tokens: Seq::empty() }
    }

    /// The word read so far; empty where none has begun.
    pub open spec fn partial(self) -> Seq<char> {
        match self.word {
            Some(w) => w,
            None => Seq::empty(),
        }
    }

    /// The same reader in another mode.
    pub open spec fn in_mode(self, mode: ShMode) -> ShReader {
        ShReader { mode, word: self.word, tokens: self.tokens }
    }

    /// `c` taken literally, as part of the word; what follows is read outside quotes
    /// unless the reader stands between them.
    pub open spec fn take_literal(self, c: char, mode: ShMode) -> ShReader {
        ShReader { mode, word: Some(self.partial().push(c)), tokens: self.tokens }
    }

    /// The word read so far, if one has begun, becomes a token.
    pub open spec fn end_word(self) -> ShReader {
        match self.word {
            Some(w) => ShReader {
                mode: self.mode,
                word: None,
                tokens: self.tokens.push(ShToken::Word(w)),
            },
            None => self,
        }
    }

    /// The reader with one more token.
    pub open spec fn emit(self, t: ShToken) -> ShReader {
        ShReader { mode: ShMode::Bare, word: self.word, tokens: self.tokens.push(t) }
    }

    /// The reader after one more character.
    pub open spec fn step(self, c: char) -> ShReader {
        match self.mode {
            ShMode::Refused => self,
            ShMode::Quoted => if c == '\'' {
                self.in_mode(ShMode::Bare)
            } else {
                self.take_literal(c, ShMode::Quoted)
            },
            ShMode::Escaped => if c == '\n' {
                self.in_mode(ShMode::Refused)
            } else {
                self.take_literal(c, ShMode::Bare)
            },
            ShMode::Ampersand => if c == '&' {
                self.emit(ShToken::AndIf)
            } else {
                self.in_mode(ShMode::Refused)
            },
            ShMode::Bare => if c == '\'' {
                ShReader {
                    mode: ShMode::Quoted,
                    word: Some(self.partial()),
                    tokens: self.tokens,
                }
            } else if c == '\\' {
                self.in_mode(ShMode::Escaped)
            } else if c == ' ' {
                self.end_word()
            } else if c == ';' {
                self.end_word().emit(ShToken::Semi)
            } else if c == '&' {
                self.end_word().in_mode(ShMode::Ampersand)
            } else if is_other_special(c) {
                self.in_mode(ShMode::Refused)
            } else {
                self.take_literal(c, ShMode::Bare)
            },
        }
    }

    /// The reader after the characters of `s`.
    pub open spec fn read(self, s: Seq<char>) -> ShReader
        decreases s.len(),
    {
        if s.len() == 0 {
            self
        } else {
            self.read(s.drop_last()).step(s.last())
        }
    }

    /// The tokens at the end of the text; none where a quote is still open.
    pub open spec fn finish(self) -> Option<Seq<ShToken>> {
        if self.mode is Bare {
            Some(self.end_word().tokens)
        } else {
            None
        }
    }
}

/// A character that means something outside quotes which the model does not cover.
pub open spec fn is_other_special(c: char) -> bool {
    c == '"' || c == '$' || c == '`' || c == '|' || c == '<' || c == '>' || c == '(' || c == ')'
        || c == '{' || c == '}' || c == '*' || c == '?' || c == '#' || c == '~' || c == '!' || c
        == '\t' || c == '\n'
}

/// The tokens that a shell reads in `s`; none where `s` leaves a quote open or uses
/// what the model does not cover.
pub open spec fn shell_reads(s: Seq<char>) -> Option<Seq<ShToken>> {
    ShReader::start().read(s).finish()
}

proof fn lemma_read_push(r: ShReader, s: Seq<char>, c: char)
    ensures
        r.read(s.push(c)) == r.read(s).step(c),
{
    assert(s.push(c).drop_last() =~= s);
}

proof fn lemma_read_concat(r: ShReader, a: Seq<char>, b: Seq<char>)
    ensures
        r.read(a + b) == r.read(a).read(b),
    decreases b.len(),
{
    if b.len() == 0 {
        assert(a + b =~= a);
    } else {
        assert((a + b).drop_last() =~= a + b.drop_last());
        lemma_read_concat(r, a, b.drop_last());
    }
}

/// Between single quotes, escaped text adds exactly the text to the word.
proof fn lemma_read_escaped(r: ShReader, s: Seq<char>)
    requires
        r.mode is Quoted,
        r.word is Some,
    ensures
        r.read(escaped(s)) == (ShReader {
            mode: ShMode::Quoted,
            word: Some(r.partial() + s),
            tokens: r.tokens,
        }),
    decreases s.len(),
{
    if s.len() == 0 {
        assert(r.partial() + s =~= r.partial());
    } else {
        let init = s.drop_last();
        let c = s.last();
        lemma_read_escaped(r, init);
        lemma_read_concat(r, escaped(init), escaped_char(c));
        let mid = r.read(escaped(init));
        assert((r.partial() + init).push(c) =~= r.partial() + s);
        if c == '\'' {
            reveal_strlit("'\\''");
            let e = Seq::<char>::empty();
            assert("'\\''"@ =~= e.push('\'').push('\\').push('\'').push('\''));
            lemma_read_push(mid, e, '\'');
            lemma_read_push(mid, e.push('\''), '\\');
            lemma_read_push(mid, e.push('\'').push('\\'), '\'');
            lemma_read_push(mid, e.push('\'').push('\\').push('\''), '\'');
        } else {
            assert(seq![c] =~= Seq::<char>::empty().push(c));
            lemma_read_push(mid, Seq::empty(), c);
        }
    }
}

/// Whatever a path holds, a shell reads its quoted form as one word, and that word is
/// the path.
pub proof fn law_quoted_text_is_one_word(s: Seq<char>)
    ensures
        shell_reads(quoted(s)) == Some(seq![ShToken::Word(s)]),
{
    reveal_strlit("'");
    let q = "'"@;
    let e = Seq::<char>::empty();
    assert(q =~= e.push('\''));
    let r0 = ShReader::start();
    lemma_read_push(r0, e, '\'');
    let r1 = r0.read(q);
    lemma_read_concat(r0, q, escaped(s));
    lemma_read_escaped(r1, s);
    let r2 = r0.read(q + escaped(s));
    assert(r1.partial() + s =~= s);
    lemma_read_concat(r0, q + escaped(s), q);
    lemma_read_push(r2, e, '\'');
    assert(r2.read(q).finish()->0 =~= seq![ShToken::Word(s)]);
}

/// The reader that has seen `tokens` and stands between quotes, with nothing of the
/// quoted text read yet.
spec fn at_open_quote(tokens: Seq<ShToken>) -> ShReader {
    ShReader { mode: ShMode::Quoted, word: Some(Seq::empty()), tokens }
}

/// From an opened quote, escaped text and what `tail` adds to the closed word.
proof fn lemma_read_quoted_then(tokens: Seq<ShToken>, s: Seq<char>, tail: Seq<char>)
    ensures
        at_open_quote(tokens).read(escaped(s) + tail) == (ShReader {
            mode: ShMode::Quoted,
            word: Some(s),
            tokens,
        }).read(tail),
{
    let r = at_open_quote(tokens);
    lemma_read_concat(r, escaped(s), tail);
    lemma_read_escaped(r, s);
    assert(r.partial() + s =~= s);
}

/// Outside quotes, characters that mean nothing special join the word.
proof fn lemma_read_plain(r: ShReader, w: Seq<char>)
    requires
        r.mode is Bare,
        w.len() > 0,
        forall|i: int| 0 <= i < w.len() ==> is_plain(#[trigger] w[i]),
    ensures
        r.read(w) == (ShReader {
            mode: ShMode::Bare,
            word: Some(r.partial() + w),
            tokens: r.tokens,
        }),
    decreases w.len(),
{
    let init = w.drop_last();
    assert((r.partial() + init).push(w.last()) =~= r.partial() + w);
    assert(is_plain(w[w.len() - 1]));
    if init.len() > 0 {
        lemma_read_plain(r, init);
    } else {
        assert(r.partial() + init =~= r.partial());
    }
}

/// A character that stands for itself outside quotes.
spec fn is_plain(c: char) -> bool {
    c != '\'' && c != '\\' && c != ' ' && c != ';' && c != '&' && !is_other_special(c)
}

/// Between words, a plain word and a blank after it are read as that word.
proof fn lemma_read_word_and_blank(tokens: Seq<ShToken>, w: Seq<char>)
    requires
        w.len() > 0,
        forall|i: int| 0 <= i < w.len() ==> is_plain(#[trigger] w[i]),
    ensures
        between(tokens).read(w + " "@) == between(tokens.push(ShToken::Word(w))),
{
    reveal_strlit(" ");
    let r = between(tokens);
    lemma_read_plain(r, w);
    assert(r.partial() + w =~= w);
    assert(w + " "@ =~= w.push(' '));
    lemma_read_push(r, w, ' ');
}

/// The reader between two words.
spec fn between(tokens: Seq<ShToken>) -> ShReader {
    ShReader { mode: ShMode::Bare, word: None, tokens }
}

/// Between words, a quote opens a new word.
proof fn lemma_read_open_quote(tokens: Seq<ShToken>)
    ensures
        between(tokens).read("'"@) == at_open_quote(tokens),
{
    reveal_strlit("'");
    assert("'"@ =~= Seq::<char>::empty().push('\''));
    lemma_read_push(between(tokens), Seq::empty(), '\'');
}

/// A quote closes the quoted text, and the blank after it ends the word.
proof fn lemma_read_close_and_blank(tokens: Seq<ShToken>, w: Seq<char>)
    ensures
        (ShReader { mode: ShMode::Quoted, word: Some(w), tokens }).read("' "@) == between(
            tokens.push(ShToken::Word(w)),
        ),
{
    reveal_strlit("' ");
    let r = ShReader { mode: ShMode::Quoted, word: Some(w), tokens };
    let e = Seq::<char>::empty();
    assert("' "@ =~= e.push('\'').push(' '));
    lemma_read_push(r, e, '\'');
    lemma_read_push(r, e.push('\''), ' ');
}

/// The tokens before the environment file is named for the first time.
spec fn head_tokens() -> Seq<ShToken> {
    Seq::empty().push(ShToken::Word("set"@)).push(ShToken::Word("-a"@)).push(ShToken::Semi).push(
        ShToken::Word("["@),
    ).push(ShToken::Word("-r"@))
}

proof fn lemma_read_head()
    ensures
        ShReader::start().read("set -a; [ -r '"@) == at_open_quote(head_tokens()),
{
    reveal_strlit("set -a; [ -r '");
    reveal_strlit("set");
    reveal_strlit("-a");
    reveal_strlit("; ");
    reveal_strlit("[");
    reveal_strlit("-r");
    reveal_strlit(" ");
    reveal_strlit("'");
    let r0 = ShReader::start();
    let t1 = Seq::empty().push(ShToken::Word("set"@));
    let t2 = t1.push(ShToken::Word("-a"@)).push(ShToken::Semi);
    let t3 = t2.push(ShToken::Word("["@));
    let s1 = "set"@ + " "@;
    let s2 = s1 + "-a"@;
    let s3 = s2 + "; "@;
    let s4 = s3 + ("["@ + " "@);
    let s5 = s4 + ("-r"@ + " "@);
    assert("set -a; [ -r '"@ =~= s5 + "'"@);
    lemma_read_word_and_blank(Seq::empty(), "set"@);
    lemma_read_concat(r0, s1, "-a"@);
    lemma_read_plain(between(t1), "-a"@);
    assert(between(t1).partial() + "-a"@ =~= "-a"@);
    lemma_read_concat(r0, s2, "; "@);
    let e = Seq::<char>::empty();
    assert("; "@ =~= e.push(';').push(' '));
    lemma_read_push(r0.read(s2), e, ';');
    lemma_read_push(r0.read(s2), e.push(';'), ' ');
    assert(r0.read(s3) == between(t2));
    lemma_read_concat(r0, s3, "["@ + " "@);
    lemma_read_word_and_blank(t2, "["@);
    lemma_read_concat(r0, s4, "-r"@ + " "@);
    lemma_read_word_and_blank(t3, "-r"@);
    lemma_read_concat(r0, s5, "'"@);
    lemma_read_open_quote(head_tokens());
}

proof fn lemma_read_middle(tokens: Seq<ShToken>, w: Seq<char>)
    ensures
        (ShReader { mode: ShMode::Quoted, word: Some(w), tokens }).read("' ] && . '"@)
            == at_open_quote(
            tokens.push(ShToken::Word(w)).push(ShToken::Word("]"@)).push(ShToken::AndIf).push(
                ShToken::Word("."@),
            ),
        ),
{
    reveal_strlit("' ] && . '");
    reveal_strlit("' ");
    reveal_strlit("]");
    reveal_strlit("&& ");
    reveal_strlit(".");
    reveal_strlit(" ");
    reveal_strlit("'");
    let r0 = ShReader { mode: ShMode::Quoted, word: Some(w), tokens };
    let t1 = tokens.push(ShToken::Word(w));
    let t2 = t1.push(ShToken::Word("]"@));
    let t3 = t2.push(ShToken::AndIf);
    let s1 = "' "@;
    let s2 = s1 + ("]"@ + " "@);
    let s3 = s2 + "&& "@;
    let s4 = s3 + ("."@ + " "@);
    assert("' ] && . '"@ =~= s4 + "'"@);
    lemma_read_close_and_blank(tokens, w);
    lemma_read_concat(r0, s1, "]"@ + " "@);
    lemma_read_word_and_blank(t1, "]"@);
    lemma_read_concat(r0, s2, "&& "@);
    let e = Seq::<char>::empty();
    assert("&& "@ =~= e.push('&').push('&').push(' '));
    lemma_read_push(between(t2), e, '&');
    lemma_read_push(between(t2), e.push('&'), '&');
    lemma_read_push(between(t2), e.push('&').push('&'), ' ');
    lemma_read_concat(r0, s3, "."@ + " "@);
    lemma_read_word_and_blank(t3, "."@);
    lemma_read_concat(r0, s4, "'"@);
    lemma_read_open_quote(t3.push(ShToken::Word("."@)));
}

proof fn lemma_read_hand_over(tokens: Seq<ShToken>, w: Seq<char>)
    ensures
        (ShReader { mode: ShMode::Quoted, word: Some(w), tokens }).read("'; exec '"@)
            == at_open_quote(
            tokens.push(ShToken::Word(w)).push(ShToken::Semi).push(ShToken::Word("exec"@)),
        ),
{
    reveal_strlit("'; exec '");
    reveal_strlit("'; ");
    reveal_strlit("exec");
    reveal_strlit(" ");
    reveal_strlit("'");
    let r0 = ShReader { mode: ShMode::Quoted, word: Some(w), tokens };
    let t1 = tokens.push(ShToken::Word(w)).push(ShToken::Semi);
    let s1 = "'; "@;
    let s2 = s1 + ("exec"@ + " "@);
    assert("'; exec '"@ =~= s2 + "'"@);
    let e = Seq::<char>::empty();
    assert("'; "@ =~= e.push('\'').push(';').push(' '));
    lemma_read_push(r0, e, '\'');
    lemma_read_push(r0, e.push('\''), ';');
    lemma_read_push(r0, e.push('\'').push(';'), ' ');
    lemma_read_concat(r0, s1, "exec"@ + " "@);
    lemma_read_word_and_blank(t1, "exec"@);
    lemma_read_concat(r0, s2, "'"@);
    lemma_read_open_quote(t1.push(ShToken::Word("exec"@)));
}

/// The fixed parts of the tick command, each with the quotes that stand beside it.
proof fn lemma_quotes_join()
    ensures
        "set -a; [ -r '"@ == "set -a; [ -r "@ + "'"@,
        "' ] && . '"@ == "'"@ + " ] && . "@ + "'"@,
        "'; exec '"@ == "'"@ + "; exec "@ + "'"@,
{
    reveal_strlit("'");
    reveal_strlit("set -a; [ -r '");
    reveal_strlit("set -a; [ -r ");
    reveal_strlit("' ] && . '");
    reveal_strlit(" ] && . ");
    reveal_strlit("'; exec '");
    reveal_strlit("; exec ");
    assert("set -a; [ -r '"@ =~= "set -a; [ -r "@ + "'"@);
    assert("' ] && . '"@ =~= "'"@ + " ] && . "@ + "'"@);
    assert("'; exec '"@ =~= "'"@ + "; exec "@ + "'"@);
}

/// What the tick command means to a shell. `set -a` comes first; the environment
/// file is read with `.` where `[ -r .. ]` finds it readable; the shell then becomes
/// the tick script. Each path is one word, letter for letter, whatever it holds.
pub proof fn law_tick_command_tokens(env_file: Seq<char>, tick: Seq<char>)
    ensures
        shell_reads(tick_command_text(env_file, tick)) == Some(
            seq![
                ShToken::Word("set"@),
                ShToken::Word("-a"@),
                ShToken::Semi,
                ShToken::Word("["@),
                ShToken::Word("-r"@),
                ShToken::Word(env_file),
                ShToken::Word("]"@),
                ShToken::AndIf,
                ShToken::Word("."@),
                ShToken::Word(env_file),
                ShToken::Semi,
                ShToken::Word("exec"@),
                ShToken::Word(tick),
            ],
        ),
{
    let r0 = ShReader::start();
    let t1 = head_tokens();
    let t2 = t1.push(ShToken::Word(env_file)).push(ShToken::Word("]"@)).push(ShToken::AndIf).push(
        ShToken::Word("."@),
    );
    let t3 = t2.push(ShToken::Word(env_file)).push(ShToken::Semi).push(ShToken::Word("exec"@));
    let q1 = ShReader { mode: ShMode::Quoted, word: Some(env_file), tokens: t1 };
    let q2 = ShReader { mode: ShMode::Quoted, word: Some(env_file), tokens: t2 };
    let q3 = ShReader { mode: ShMode::Quoted, word: Some(tick), tokens: t3 };
    let rest2 = escaped(tick) + "'"@;
    let rest1 = escaped(env_file) + ("'; exec '"@ + rest2);
    let rest0 = escaped(env_file) + ("' ] && . '"@ + rest1);
    lemma_quotes_join();
    assert(tick_command_text(env_file, tick) =~= "set -a; [ -r '"@ + rest0);

    lemma_read_concat(r0, "set -a; [ -r '"@, rest0);
    lemma_read_head();
    lemma_read_quoted_then(t1, env_file, "' ] && . '"@ + rest1);
    lemma_read_concat(q1, "' ] && . '"@, rest1);
    lemma_read_middle(t1, env_file);
    lemma_read_quoted_then(t2, env_file, "'; exec '"@ + rest2);
    lemma_read_concat(q2, "'; exec '"@, rest2);
    lemma_read_hand_over(t2, env_file);
    lemma_read_quoted_then(t3, tick, "'"@);
    reveal_strlit("'");
    assert("'"@ =~= Seq::<char>::empty().push('\''));
    lemma_read_push(q3, Seq::empty(), '\'');
    let end = r0.read(tick_command_text(env_file, tick));
    assert(end == q3.in_mode(ShMode::Bare));
    assert(end.finish()->0 =~= seq![
        ShToken::Word("set"@),
        ShToken::Word("-a"@),
        ShToken::Semi,
        ShToken::Word("["@),
        ShToken::Word("-r"@),
        ShToken::Word(env_file),
        ShToken::Word("]"@),
        ShToken::AndIf,
        ShToken::Word("."@),
        ShToken::Word(env_file),
        ShToken::Semi,
        ShToken::Word("exec"@),
        ShToken::Word(tick),
    ]);
}

} // verus!
