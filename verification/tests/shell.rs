use ardi_agent::shell::{sh_escape, tick_command};

/// The words of `text`, as `bash` takes them.
fn words(text: &str) -> Vec<String> {
    let mut out = Vec::new();
    let mut word: Option<String> = None;
    let mut quoted = false;
    let mut chars = text.chars();
    while let Some(c) = chars.next() {
        match (quoted, c) {
            (true, '\'') => quoted = false,
            (true, c) => word.get_or_insert_with(String::new).push(c),
            (false, '\'') => {
                quoted = true;
                word.get_or_insert_with(String::new);
            }
            (false, '\\') => word
                .get_or_insert_with(String::new)
                .push(chars.next().unwrap()),
            (false, ' ') => out.extend(word.take()),
            (false, c) => word.get_or_insert_with(String::new).push(c),
        }
    }
    assert!(!quoted);
    out.extend(word.take());
    out
}

#[test]
fn text_is_wrapped_in_single_quotes() {
    assert_eq!(sh_escape(""), "''");
    assert_eq!(sh_escape("/home/a b/$x;y"), "'/home/a b/$x;y'");
}

#[test]
fn embedded_single_quotes_are_escaped() {
    assert_eq!(sh_escape("it's"), "'it'\\''s'");
    assert_eq!(sh_escape("''"), "''\\'''\\'''");
    assert_eq!(sh_escape("ж'"), "'ж'\\'''");
}

#[test]
fn quoted_text_reads_as_one_word() {
    for s in ["", "a b", "it's", "'", "$(x) `y` \"z\" \\ & ; | '", "x'; echo y; '"] {
        assert_eq!(words(&sh_escape(s)), vec![s]);
    }
}

#[test]
fn the_tick_command() {
    assert_eq!(
        tick_command("/h/.ardi-agent/auto-mine.env", "/h/s/ardi-tick.sh"),
        "set -a; [ -r '/h/.ardi-agent/auto-mine.env' ] && . '/h/.ardi-agent/auto-mine.env'; exec '/h/s/ardi-tick.sh'"
    );
}

#[test]
fn the_tick_command_keeps_odd_paths_whole() {
    let cmd = tick_command("/o'h/e nv", "/t'i;ck");
    assert_eq!(
        words(&cmd),
        vec!["set", "-a;", "[", "-r", "/o'h/e nv", "]", "&&", ".", "/o'h/e nv;", "exec", "/t'i;ck"]
    );
}
