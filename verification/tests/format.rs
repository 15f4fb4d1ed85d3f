use powerline::format::{as_bold, bg, escape, fg, reset, sgr_code};
use powerline::Shell;

#[test]
fn sgr_code_bare_is_plain_ansi() {
    assert_eq!(sgr_code(Shell::Bare, "1"), "\x1b[1m");
}

#[test]
fn sgr_code_bash_is_wrapped_in_brackets() {
    assert_eq!(sgr_code(Shell::Bash, "1"), "\\[\\e[1m\\]");
}

#[test]
fn sgr_code_zsh_is_wrapped_in_braces() {
    assert_eq!(sgr_code(Shell::Zsh, "1"), "%{\x1b[1m%}");
}

#[test]
fn sgr_code_with_empty_code() {
    assert_eq!(sgr_code(Shell::Bare, ""), "\x1b[m");
}

#[test]
fn fg_writes_the_colour_in_decimal() {
    assert_eq!(fg(Shell::Bare, 5), "\x1b[38;5;5m");
    assert_eq!(fg(Shell::Bare, 0), "\x1b[38;5;0m");
    assert_eq!(fg(Shell::Bare, 10), "\x1b[38;5;10m");
    assert_eq!(fg(Shell::Bare, 100), "\x1b[38;5;100m");
    assert_eq!(fg(Shell::Bare, 255), "\x1b[38;5;255m");
}

#[test]
fn fg_in_each_shell() {
    assert_eq!(fg(Shell::Bash, 231), "\\[\\e[38;5;231m\\]");
    assert_eq!(fg(Shell::Zsh, 31), "%{\x1b[38;5;31m%}");
}

#[test]
fn bg_in_each_shell() {
    assert_eq!(bg(Shell::Bare, 236), "\x1b[48;5;236m");
    assert_eq!(bg(Shell::Bash, 9), "\\[\\e[48;5;9m\\]");
    assert_eq!(bg(Shell::Zsh, 0), "%{\x1b[48;5;0m%}");
}

#[test]
fn reset_foreground_and_background() {
    assert_eq!(reset(Shell::Bare, true), "\x1b[39m");
    assert_eq!(reset(Shell::Bare, false), "\x1b[49m");
    assert_eq!(reset(Shell::Bash, true), "\\[\\e[39m\\]");
    assert_eq!(reset(Shell::Zsh, false), "%{\x1b[49m%}");
}

#[test]
fn as_bold_wraps_the_text() {
    assert_eq!(as_bold(Shell::Bare, "src"), "\x1b[1msrc\x1b[22m");
    assert_eq!(as_bold(Shell::Bash, "src"), "\\[\\e[1m\\]src\\[\\e[22m\\]");
    assert_eq!(as_bold(Shell::Zsh, ""), "%{\x1b[1m%}%{\x1b[22m%}");
}

#[test]
fn escape_bare_is_identity() {
    for text in ["", "plain", "a\\b$c\"d%e)f", "\u{e0a0} master", "%%))\\\\"] {
        let mut s = String::from(text);
        escape(Shell::Bare, &mut s);
        assert_eq!(s, text);
    }
}

#[test]
fn escape_bash_quotes_backslash_dollar_and_quote() {
    let mut s = String::from("a\\b$c\"d");
    escape(Shell::Bash, &mut s);
    assert_eq!(s, "a\\\\b\\$c\\\"d");
}

#[test]
fn escape_bash_leaves_zsh_characters() {
    let mut s = String::from("50%)");
    escape(Shell::Bash, &mut s);
    assert_eq!(s, "50%)");
}

#[test]
fn escape_zsh_quotes_percent_and_paren() {
    let mut s = String::from("50%) done");
    escape(Shell::Zsh, &mut s);
    assert_eq!(s, "50%%%) done");
}

#[test]
fn escape_zsh_quotes_dollar() {
    let mut s = String::from("$");
    escape(Shell::Zsh, &mut s);
    assert_eq!(s, "\\$");
    let mut s = String::from("$HOME is 100% $(mine)");
    escape(Shell::Zsh, &mut s);
    assert_eq!(s, "\\$HOME is 100%% \\$(mine%)");
}

#[test]
fn escape_zsh_leaves_backslash_and_quote() {
    let mut s = String::from("a\\b$c\"d");
    escape(Shell::Zsh, &mut s);
    assert_eq!(s, "a\\b\\$c\"d");
}

#[test]
fn escape_leaves_no_bare_dollar() {
    for shell in [Shell::Bash, Shell::Zsh] {
        let mut s = String::from("$a$$b ${c} $");
        escape(shell, &mut s);
        assert_eq!(s, "\\$a\\$\\$b \\${c} \\$");
    }
}

#[test]
fn escape_empty_text() {
    for shell in [Shell::Bare, Shell::Bash, Shell::Zsh] {
        let mut s = String::new();
        escape(shell, &mut s);
        assert_eq!(s, "");
    }
}

#[test]
fn escape_keeps_other_characters_in_order() {
    let mut s = String::from("\u{e0a0} fe\u{e9}-1 (x)");
    escape(Shell::Bash, &mut s);
    assert_eq!(s, "\u{e0a0} fe\u{e9}-1 (x)");
    let mut s = String::from("(x)");
    escape(Shell::Zsh, &mut s);
    assert_eq!(s, "(x%)");
}

#[test]
fn escape_twice_without_guard_quotes_again() {
    let mut s = String::from("$");
    escape(Shell::Bash, &mut s);
    escape(Shell::Bash, &mut s);
    assert_eq!(s, "\\\\\\$");
}
