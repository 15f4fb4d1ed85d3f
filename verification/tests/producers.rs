use powerline::segments::segment_cwd::simple_cwd_string;
use powerline::segments::segment_root::PROMPT_SIGN;
use powerline::segments::{segment_cwd, segment_root};
use powerline::theme::defaults;
use powerline::{Powerline, Shell};

fn path(parts: &[&str]) -> Vec<String> {
    parts.iter().map(|p| p.to_string()).collect()
}

#[test]
fn root_after_success() {
    let mut p = Powerline::new(defaults(), Shell::Bare);
    segment_root(&mut p, 0);
    assert_eq!(p.segments.len(), 1);
    assert_eq!(p.segments[0].text(), "\u{1204d} ");
    assert_eq!(PROMPT_SIGN, '\u{1204d}');
    assert_eq!((p.segments[0].background(), p.segments[0].foreground()), (162, 231));
    assert!(!p.segments[0].is_escaped());
}

#[test]
fn root_after_failure_shows_the_code() {
    for code in [1u8, 2, 9, 10, 127, 130, 255] {
        let mut p = Powerline::new(defaults(), Shell::Bare);
        segment_root(&mut p, code);
        assert_eq!(p.segments.len(), 1);
        assert_eq!(p.segments[0].text(), code.to_string());
        assert_eq!((p.segments[0].background(), p.segments[0].foreground()), (124, 231));
    }
}

#[test]
fn root_uses_the_theme_and_appends() {
    let mut theme = defaults();
    theme.cmd_passed_bg = 1;
    theme.cmd_passed_fg = 2;
    theme.cmd_failed_bg = 3;
    theme.cmd_failed_fg = 4;
    let mut p = Powerline::new(theme, Shell::Zsh);
    segment_root(&mut p, 0);
    segment_root(&mut p, 7);
    assert_eq!(p.segments.len(), 2);
    assert_eq!((p.segments[0].background(), p.segments[0].foreground()), (1, 2));
    assert_eq!((p.segments[1].background(), p.segments[1].foreground()), (3, 4));
    assert_eq!(p.segments[1].text(), "7");
}

#[test]
fn cwd_inside_home() {
    let cwd = path(&["/", "home", "me", "src", "app"]);
    let home = path(&["/", "home", "me"]);
    assert_eq!(simple_cwd_string(Shell::Bare, 5, &cwd, Some(&home)), "~/src/\x1b[1mapp\x1b[22m");
}

#[test]
fn cwd_is_home() {
    let home = path(&["/", "home", "me"]);
    assert_eq!(simple_cwd_string(Shell::Bare, 5, &home, Some(&home)), "\x1b[1m~\x1b[22m");
    assert_eq!(simple_cwd_string(Shell::Bash, 5, &home, Some(&home)), "\\[\\e[1m\\]~\\[\\e[22m\\]");
}

#[test]
fn cwd_is_root() {
    let home = path(&["/", "home", "me"]);
    assert_eq!(simple_cwd_string(Shell::Bare, 5, &path(&["/"]), Some(&home)), "\x1b[1m/\x1b[22m");
}

#[test]
fn cwd_outside_home_loses_its_root() {
    let cwd = path(&["/", "usr", "lib"]);
    let home = path(&["/", "home", "me"]);
    assert_eq!(simple_cwd_string(Shell::Bare, 5, &cwd, Some(&home)), "/usr/\x1b[1mlib\x1b[22m");
    assert_eq!(
        simple_cwd_string(Shell::Zsh, 5, &cwd, Some(&home)),
        "/usr/%{\x1b[1m%}lib%{\x1b[22m%}"
    );
}

#[test]
fn cwd_beside_home_is_not_inside() {
    let cwd = path(&["/", "home", "meme"]);
    let home = path(&["/", "home", "me"]);
    assert_eq!(simple_cwd_string(Shell::Bare, 5, &cwd, Some(&home)), "/home/\x1b[1mmeme\x1b[22m");
    let above = path(&["/", "home"]);
    assert_eq!(simple_cwd_string(Shell::Bare, 5, &above, Some(&home)), "/\x1b[1mhome\x1b[22m");
}

#[test]
fn cwd_without_home_keeps_its_root() {
    let cwd = path(&["/", "usr", "lib"]);
    assert_eq!(simple_cwd_string(Shell::Bare, 5, &cwd, None), "///usr/\x1b[1mlib\x1b[22m");
    assert_eq!(simple_cwd_string(Shell::Bare, 5, &path(&[]), None), "\x1b[1m/\x1b[22m");
}

#[test]
fn cwd_relative_path() {
    let home = path(&["/", "home", "me"]);
    assert_eq!(
        simple_cwd_string(Shell::Bare, 5, &path(&["error"]), Some(&home)),
        "/\x1b[1merror\x1b[22m"
    );
}

#[test]
fn cwd_shows_the_last_directories_only() {
    let cwd = path(&["/", "home", "me", "a", "b", "c", "d"]);
    let home = path(&["/", "home", "me"]);
    assert_eq!(
        simple_cwd_string(Shell::Bare, 2, &cwd, Some(&home)),
        "~/\u{e2}\u{20ac}\u{a6}/c/\x1b[1md\x1b[22m"
    );
    assert_eq!(
        simple_cwd_string(Shell::Bare, 1, &cwd, Some(&home)),
        "~/\u{e2}\u{20ac}\u{a6}/\x1b[1md\x1b[22m"
    );
    assert_eq!(
        simple_cwd_string(Shell::Bare, 3, &path(&["/", "a", "b", "c", "d"]), Some(&home)),
        "/\u{e2}\u{20ac}\u{a6}/b/c/\x1b[1md\x1b[22m"
    );
}

#[test]
fn cwd_depth_that_fits_shows_everything() {
    let cwd = path(&["/", "home", "me", "a", "b", "c", "d"]);
    let home = path(&["/", "home", "me"]);
    assert_eq!(simple_cwd_string(Shell::Bare, 4, &cwd, Some(&home)), "~/a/b/c/\x1b[1md\x1b[22m");
    assert_eq!(simple_cwd_string(Shell::Bare, 255, &cwd, Some(&home)), "~/a/b/c/\x1b[1md\x1b[22m");
}

#[test]
fn cwd_depth_zero_is_unlimited() {
    let cwd = path(&["/", "home", "me", "a", "b", "c", "d"]);
    let home = path(&["/", "home", "me"]);
    assert_eq!(simple_cwd_string(Shell::Bare, 0, &cwd, Some(&home)), "~/a/b/c/\x1b[1md\x1b[22m");
}

#[test]
fn cwd_segment_is_marked_as_quoted() {
    let mut p = Powerline::new(defaults(), Shell::Bash);
    let cwd = path(&["/", "srv", "$x"]);
    segment_cwd(&mut p, 5, &cwd);
    assert_eq!(p.segments.len(), 1);
    assert!(p.segments[0].is_escaped());
    assert!(p.segments[0].text().ends_with("/\\[\\e[1m\\]$x\\[\\e[22m\\]"));
    assert_eq!((p.segments[0].background(), p.segments[0].foreground()), (236, 252));
    let out = p.render(false);
    assert!(out.contains("/\\[\\e[1m\\]$x\\[\\e[22m\\] "));
}

#[test]
fn cwd_segment_counts_from_the_home_directory() {
    let home: Option<Vec<String>> = dirs::home_dir()
        .map(|home| home.iter().map(|part| part.to_string_lossy().into_owned()).collect());
    let mut inside = home.clone().unwrap_or_default();
    inside.push("work".to_string());
    inside.push("app".to_string());
    for cwd in [inside, path(&["/", "srv", "www"]), path(&["/"]), home.clone().unwrap_or_default()] {
        for depth in [0u8, 1, 2, 5] {
            let mut p = Powerline::new(defaults(), Shell::Zsh);
            segment_cwd(&mut p, depth, &cwd);
            assert_eq!(p.segments.len(), 1);
            assert_eq!(
                p.segments[0].text(),
                simple_cwd_string(Shell::Zsh, depth, &cwd, home.as_ref())
            );
        }
    }
}
