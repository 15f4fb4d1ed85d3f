use powerline::segments::{Segment, SEPARATOR, SEPARATOR_RTL};
use powerline::theme::defaults;
use powerline::{Powerline, Shell};

fn seg(bg: u8, fg: u8, text: &str) -> Segment {
    Segment::new(bg, fg, text.to_string())
}

fn ready(bg: u8, fg: u8, text: &str) -> Segment {
    Segment::new(bg, fg, text.to_string()).dont_escape()
}

fn count(haystack: &str, needle: &str) -> usize {
    haystack.matches(needle).count()
}

#[test]
fn separator_glyphs() {
    assert_eq!(SEPARATOR, '\u{e0c6}');
    assert_eq!(SEPARATOR_RTL, '\u{e0b2}');
}

#[test]
fn new_segment_has_no_flags() {
    let s = seg(4, 7, "hi");
    assert_eq!(s.background(), 4);
    assert_eq!(s.foreground(), 7);
    assert_eq!(s.text(), "hi");
    assert!(!s.is_conditional());
    assert!(!s.is_escaped());
}

#[test]
fn builders_set_their_flag() {
    assert!(seg(1, 2, "x").into_conditional().is_conditional());
    assert!(seg(1, 2, "x").dont_escape().is_escaped());
    let s = seg(1, 2, "x").bold().with_before("<").with_after(">").with_no_space_after();
    assert!(!s.is_conditional());
    assert!(!s.is_escaped());
    assert_eq!(s.text(), "x");
}

#[test]
fn escape_quotes_the_text_once() {
    let mut s = seg(1, 2, "a$b");
    s.escape(Shell::Bash);
    assert_eq!(s.text(), "a\\$b");
    assert!(s.is_escaped());
    s.escape(Shell::Bash);
    assert_eq!(s.text(), "a\\$b");
    s.escape(Shell::Zsh);
    assert_eq!(s.text(), "a\\$b");
}

#[test]
fn escape_leaves_a_quoted_segment() {
    let mut s = seg(1, 2, "100%").dont_escape();
    s.escape(Shell::Zsh);
    assert_eq!(s.text(), "100%");
    assert!(s.is_escaped());
}

#[test]
fn escape_for_bare_marks_but_keeps() {
    let mut s = seg(1, 2, "a$b%c");
    s.escape(Shell::Bare);
    assert_eq!(s.text(), "a$b%c");
    assert!(s.is_escaped());
}

#[test]
fn print_last_segment() {
    let s = ready(4, 7, "hi");
    assert_eq!(
        s.print(None, Shell::Bare, &defaults()),
        "\x1b[38;5;7m\x1b[48;5;4m hi \x1b[38;5;4m\x1b[49m\u{e0c6}\x1b[39m"
    );
}

#[test]
fn print_last_segment_in_bash_and_zsh() {
    let s = ready(4, 7, "hi");
    assert_eq!(
        s.print(None, Shell::Bash, &defaults()),
        "\\[\\e[38;5;7m\\]\\[\\e[48;5;4m\\] hi \\[\\e[38;5;4m\\]\\[\\e[49m\\]\u{e0c6}\\[\\e[39m\\]"
    );
    assert_eq!(
        s.print(None, Shell::Zsh, &defaults()),
        "%{\x1b[38;5;7m%}%{\x1b[48;5;4m%} hi %{\x1b[38;5;4m%}%{\x1b[49m%}\u{e0c6}%{\x1b[39m%}"
    );
}

#[test]
fn print_before_neighbour_with_other_background() {
    let s = ready(4, 7, "hi");
    let next = ready(5, 1, "next");
    assert_eq!(
        s.print(Some(&next), Shell::Bare, &defaults()),
        "\x1b[38;5;7m\x1b[48;5;4m hi \x1b[38;5;4m\x1b[48;5;5m\u{e0c6}"
    );
}

#[test]
fn print_before_neighbour_with_same_background() {
    let s = ready(4, 7, "hi");
    let next = ready(4, 1, "next");
    for shell in [Shell::Bare, Shell::Bash, Shell::Zsh] {
        let out = s.print(Some(&next), shell, &defaults());
        assert!(!out.contains(SEPARATOR));
        assert!(out.ends_with(" hi"));
    }
    assert_eq!(s.print(Some(&next), Shell::Bare, &defaults()), "\x1b[38;5;7m\x1b[48;5;4m hi");
}

#[test]
fn print_before_conditional_neighbour() {
    let s = ready(4, 7, "hi");
    let next = ready(5, 1, "next").into_conditional();
    assert_eq!(s.print(Some(&next), Shell::Bare, &defaults()), "\x1b[38;5;7m\x1b[48;5;4m hi ");
}

#[test]
fn print_conditional_segment_itself_draws_separator() {
    let s = ready(4, 7, "hi").into_conditional();
    let next = ready(5, 1, "next");
    assert_eq!(
        s.print(Some(&next), Shell::Bare, &defaults()),
        "\x1b[38;5;7m\x1b[48;5;4m hi \x1b[38;5;4m\x1b[48;5;5m\u{e0c6}"
    );
}

#[test]
fn print_neutral_background_borrows_neighbour_colour() {
    let s = ready(0, 7, "hi");
    let next = ready(5, 1, "next");
    assert_eq!(
        s.print(Some(&next), Shell::Bare, &defaults()),
        "\x1b[38;5;7m\x1b[48;5;0m hi \x1b[38;5;5m\x1b[48;5;5m\u{e0c6}"
    );
}

#[test]
fn print_neutral_background_at_the_end() {
    let s = ready(0, 7, "hi");
    assert_eq!(
        s.print(None, Shell::Bare, &defaults()),
        "\x1b[38;5;7m\x1b[48;5;0m hi \x1b[38;5;0m\x1b[49m\u{e0c6}\x1b[39m"
    );
}

#[test]
fn print_bold_text() {
    let s = ready(4, 7, "hi").bold();
    let next = ready(5, 1, "next");
    assert_eq!(
        s.print(Some(&next), Shell::Bare, &defaults()),
        "\x1b[38;5;7m\x1b[48;5;4m \x1b[1mhi\x1b[22m \x1b[38;5;4m\x1b[48;5;5m\u{e0c6}"
    );
}

#[test]
fn print_without_space_after() {
    let s = ready(4, 7, "hi").with_no_space_after();
    let next = ready(5, 1, "next");
    assert_eq!(
        s.print(Some(&next), Shell::Bare, &defaults()),
        "\x1b[38;5;7m\x1b[48;5;4m hi\x1b[38;5;4m\x1b[48;5;5m\u{e0c6}"
    );
    assert_eq!(
        s.print(None, Shell::Bare, &defaults()),
        "\x1b[38;5;7m\x1b[48;5;4m hi\x1b[38;5;4m\x1b[49m\u{e0c6}\x1b[39m"
    );
}

#[test]
fn print_with_decoration() {
    let s = ready(4, 7, "hi").with_before("<<").with_after(">>");
    let next = ready(5, 1, "next");
    assert_eq!(
        s.print(Some(&next), Shell::Bare, &defaults()),
        "<<\x1b[38;5;7m\x1b[48;5;4m hi \x1b[38;5;4m\x1b[48;5;5m\u{e0c6}>>"
    );
}

#[test]
fn print_empty_text() {
    let s = ready(4, 7, "");
    assert_eq!(
        s.print(None, Shell::Bare, &defaults()),
        "\x1b[38;5;7m\x1b[48;5;4m  \x1b[38;5;4m\x1b[49m\u{e0c6}\x1b[39m"
    );
}

#[test]
fn print_does_not_depend_on_the_theme() {
    let s = ready(4, 7, "hi");
    let mut other = defaults();
    other.separator_fg = 1;
    other.path_bg = 2;
    assert_eq!(s.print(None, Shell::Bare, &defaults()), s.print(None, Shell::Bare, &other));
}

#[test]
fn print_last_segment_resets_each_colour_once() {
    for shell in [Shell::Bare, Shell::Bash, Shell::Zsh] {
        for s in [ready(4, 7, "hi"), ready(0, 0, ""), ready(9, 9, "x").bold().with_no_space_after()] {
            let out = s.print(None, shell, &defaults());
            assert_eq!(count(&out, "[39m"), 1);
            assert_eq!(count(&out, "[49m"), 1);
            let next = ready(5, 1, "next");
            let inner = s.print(Some(&next), shell, &defaults());
            assert_eq!(count(&inner, "[39m"), 0);
            assert_eq!(count(&inner, "[49m"), 0);
        }
    }
}

#[test]
fn print_rtl_last_segment() {
    let s = ready(4, 7, "hi");
    assert_eq!(
        s.print_rtl(None, Shell::Bare, &defaults()),
        "\x1b[38;5;4m\u{e0b2}\x1b[38;5;7m\x1b[48;5;4m hi \x1b[49m\x1b[39m"
    );
}

#[test]
fn print_rtl_beside_neighbour_with_other_background() {
    let s = ready(4, 7, "hi");
    let next = ready(5, 1, "next");
    assert_eq!(
        s.print_rtl(Some(&next), Shell::Bare, &defaults()),
        "\x1b[38;5;4m\x1b[48;5;5m\u{e0b2}\x1b[38;5;7m\x1b[48;5;4m hi \x1b[49m\x1b[39m"
    );
}

#[test]
fn print_rtl_beside_neighbour_with_same_background() {
    let s = ready(4, 7, "hi");
    let next = ready(4, 1, "next");
    assert_eq!(
        s.print_rtl(Some(&next), Shell::Bare, &defaults()),
        "\x1b[38;5;7m\x1b[48;5;4m hi\x1b[49m\x1b[39m"
    );
    for shell in [Shell::Bare, Shell::Bash, Shell::Zsh] {
        let out = s.print_rtl(Some(&next), shell, &defaults());
        assert!(!out.contains(SEPARATOR_RTL));
        assert!(!out.contains("hi "));
    }
}

#[test]
fn print_rtl_beside_conditional_neighbour() {
    let s = ready(4, 7, "hi");
    let next = ready(5, 1, "next").into_conditional();
    assert_eq!(
        s.print_rtl(Some(&next), Shell::Bare, &defaults()),
        "\x1b[38;5;7m\x1b[48;5;4m hi \x1b[49m\x1b[39m"
    );
}

#[test]
fn print_rtl_neutral_background_borrows_neighbour_colour() {
    let s = ready(0, 7, "hi");
    let next = ready(5, 1, "next");
    assert_eq!(
        s.print_rtl(Some(&next), Shell::Bare, &defaults()),
        "\x1b[38;5;5m\x1b[48;5;5m\u{e0b2}\x1b[38;5;7m\x1b[48;5;0m hi \x1b[49m\x1b[39m"
    );
}

#[test]
fn print_rtl_with_decoration_bold_and_no_space() {
    let s = ready(4, 7, "hi").with_before("<<").with_after(">>").bold().with_no_space_after();
    assert_eq!(
        s.print_rtl(None, Shell::Bare, &defaults()),
        ">>\x1b[38;5;4m\u{e0b2}\x1b[38;5;7m\x1b[48;5;4m \x1b[1mhi\x1b[22m\x1b[49m\x1b[39m<<"
    );
}

#[test]
fn print_rtl_in_zsh() {
    let s = ready(4, 7, "hi");
    assert_eq!(
        s.print_rtl(None, Shell::Zsh, &defaults()),
        "%{\x1b[38;5;4m%}\u{e0b2}%{\x1b[38;5;7m%}%{\x1b[48;5;4m%} hi %{\x1b[49m%}%{\x1b[39m%}"
    );
}

#[test]
fn render_empty_row_is_empty() {
    for shell in [Shell::Bare, Shell::Bash, Shell::Zsh] {
        for rtl in [false, true] {
            let mut p = Powerline::new(defaults(), shell);
            assert_eq!(p.render(rtl), "");
        }
    }
}

#[test]
fn render_single_segment() {
    let mut p = Powerline::new(defaults(), Shell::Bare);
    p.push(seg(4, 7, "hi"));
    assert_eq!(p.render(false), "\x1b[38;5;7m\x1b[48;5;4m hi \x1b[38;5;4m\x1b[49m\u{e0c6}\x1b[39m");
}

#[test]
fn render_left_to_right() {
    let mut p = Powerline::new(defaults(), Shell::Bare);
    p.push(seg(1, 2, "a"));
    p.push(seg(3, 4, "b"));
    p.push(seg(3, 5, "c"));
    assert_eq!(
        p.render(false),
        "\x1b[38;5;2m\x1b[48;5;1m a \x1b[38;5;1m\x1b[48;5;3m\u{e0c6}\
         \x1b[38;5;4m\x1b[48;5;3m b\
         \x1b[38;5;5m\x1b[48;5;3m c \x1b[38;5;3m\x1b[49m\u{e0c6}\x1b[39m"
    );
}

#[test]
fn render_right_to_left() {
    let mut p = Powerline::new(defaults(), Shell::Bare);
    p.push(seg(1, 2, "a"));
    p.push(seg(3, 4, "b"));
    p.push(seg(3, 5, "c"));
    assert_eq!(
        p.render(true),
        "\x1b[38;5;3m\u{e0b2}\x1b[38;5;5m\x1b[48;5;3m c \x1b[49m\x1b[39m\
         \x1b[38;5;4m\x1b[48;5;3m b\x1b[49m\x1b[39m\
         \x1b[38;5;1m\x1b[48;5;3m\u{e0b2}\x1b[38;5;2m\x1b[48;5;1m a \x1b[49m\x1b[39m"
    );
}

#[test]
fn render_quotes_every_segment_for_the_shell() {
    let mut p = Powerline::new(defaults(), Shell::Bash);
    p.push(seg(1, 2, "$HOME"));
    p.push(seg(3, 4, "\\[x\\]").dont_escape());
    let out = p.render(false);
    assert!(out.contains(" \\$HOME "));
    assert!(out.contains(" \\[x\\] "));
    assert_eq!(p.segments[0].text(), "\\$HOME");
    assert_eq!(p.segments[1].text(), "\\[x\\]");
    assert!(p.segments[0].is_escaped());
    assert!(p.segments[1].is_escaped());
}

#[test]
fn render_twice_gives_the_same_text() {
    for shell in [Shell::Bare, Shell::Bash, Shell::Zsh] {
        for rtl in [false, true] {
            let mut p = Powerline::new(defaults(), shell);
            p.push(seg(1, 2, "a$b%c)d\\e\"f"));
            p.push(seg(1, 4, "~/src").bold());
            p.push(seg(0, 5, "100%").into_conditional().with_before("\n"));
            let first = p.render(rtl);
            let second = p.render(rtl);
            assert_eq!(first, second);
            assert_eq!(p.segments.len(), 3);
        }
    }
}

#[test]
fn render_row_resets_each_colour_once_left_to_right() {
    for shell in [Shell::Bare, Shell::Bash, Shell::Zsh] {
        let mut p = Powerline::new(defaults(), shell);
        p.push(seg(1, 2, "a"));
        p.push(seg(3, 4, "b"));
        p.push(seg(5, 6, "c"));
        let out = p.render(false);
        assert_eq!(count(&out, "[39m"), 1);
        assert_eq!(count(&out, "[49m"), 1);
        assert_eq!(count(&out, "\u{e0c6}"), 3);
    }
}

#[test]
fn render_keeps_theme_and_shell() {
    let mut p = Powerline::new(defaults(), Shell::Zsh);
    p.push(seg(1, 2, "a"));
    p.render(true);
    assert_eq!(p.theme, defaults());
    assert_eq!(p.shell, Shell::Zsh);
}
