//! The segment that shows the working directory.

use crate::format::{as_bold, bold_spec};
use crate::segments::repository::home_dir;
use crate::segments::{Segment, SegmentView};
use crate::text::{chars_of, spells};
use crate::{Powerline, PowerlineView, Shell};
use vstd::prelude::*;
use vstd::string::StringExecFns;

verus! {

/// What stands for the directories that are left out: a slash and the
/// three characters U+00E2, U+20AC and U+00A6.
pub open spec fn omission() -> Seq<char> {
    seq!['/', '\u{e2}', '\u{20ac}', '\u{a6}']
}

/// The working directory as the prompt counts it: whether it lies in the
/// home directory, and the components that are left. A path in the home
/// directory loses the components of the home directory. Any other loses
/// its root, but only where a home directory is known at all.
pub open spec fn relative_path(cwd: Seq<Seq<char>>, home: Option<Seq<Seq<char>>>) -> (
    bool,
    Seq<Seq<char>>,
) {
    match home {
        Some(home) => if home.is_prefix_of(cwd) {
            (true, cwd.skip(home.len() as int))
        } else if cwd.len() > 0 && cwd[0] == seq!['/'] {
            (false, cwd.skip(1))
        } else {
            (false, cwd)
        },
        None => (false, cwd),
    }
}

/// Every component with a `/` before it.
pub open spec fn joined(parts: Seq<Seq<char>>) -> Seq<char>
    decreases parts.len(),
{
    if parts.len() == 0 {
        Seq::empty()
    } else {
        joined(parts.drop_last()) + seq!['/'] + parts.last()
    }
}

/// The text for a path of `parts` components, of which at most `max_depth`
/// are shown, the last ones; 0 shows them all. The last component is bold.
/// A path without components is shown as `~` or `/`, in bold.
pub open spec fn path_text(shell: Shell, max_depth: u8, in_home: bool, parts: Seq<Seq<char>>) -> Seq<
    char,
> {
    let skipped = if max_depth > 0 && parts.len() > max_depth {
        parts.len() - max_depth
    } else {
        0
    };
    let start: Seq<char> = if in_home {
        seq!['~']
    } else {
        Seq::empty()
    };
    if parts.len() == 0 {
        bold_spec(
            shell,
            if in_home {
                seq!['~']
            } else {
                seq!['/']
            },
        )
    } else {
        start + (if skipped > 0 {
            omission()
        } else {
            Seq::empty()
        }) + joined(parts.subrange(skipped, parts.len() - 1)) + seq!['/'] + bold_spec(
            shell,
            parts.last(),
        )
    }
}

/// The text of the segment for the working directory `cwd`, given the home
/// directory; both are lists of path components, the root being the
/// component `/`.
pub open spec fn cwd_text(
    shell: Shell,
    max_depth: u8,
    cwd: Seq<Seq<char>>,
    home: Option<Seq<Seq<char>>>,
) -> Seq<char> {
    let (in_home, parts) = relative_path(cwd, home);
    path_text(shell, max_depth, in_home, parts)
}

/// Whether `cwd` starts with all the components of `home`.
fn starts_with(cwd: &Vec<String>, home: &Vec<String>) -> (b: bool)
    ensures
        b == home.deep_view().is_prefix_of(cwd.deep_view()),
{
    let ghost c = cwd.deep_view();
    let ghost h = home.deep_view();
    if home.len() > cwd.len() {
        return false;
    }
    let mut i: usize = 0;
    while i < home.len()
        invariant
            i <= home.len() <= cwd.len(),
            c == cwd.deep_view(),
            h == home.deep_view(),
            forall|j: int| 0 <= j < i ==> #[trigger] h[j] == c[j],
        decreases home.len() - i,
    {
        if cwd[i] != home[i] {
            assert(h[i as int] == home@[i as int]@);
            assert(c[i as int] == cwd@[i as int]@);
            assert(c.subrange(0, h.len() as int)[i as int] == c[i as int]);
            return false;
        }
        assert(h[i as int] == home@[i as int]@);
        assert(c[i as int] == cwd@[i as int]@);
        i += 1;
    }
    assert(h =~= c.subrange(0, h.len() as int));
    true
}

/// Where the components that are shown start in `cwd`, and whether the
/// path lies in the home directory.
fn relative_start(cwd: &Vec<String>, home: Option<&Vec<String>>) -> (r: (bool, usize))
    ensures
        r.1 <= cwd.len(),
        (r.0, cwd.deep_view().skip(r.1 as int)) == relative_path(
            cwd.deep_view(),
            home.deep_view(),
        ),
{
    let ghost c = cwd.deep_view();
    assert(c.skip(0) =~= c);
    match home {
        Some(home) => {
            if starts_with(cwd, home) {
                (true, home.len())
            } else if cwd.len() > 0 {
                let first = chars_of(cwd[0].as_str());
                proof {
                    reveal_strlit("/");
                    assert("/"@ =~= seq!['/']);
                    assert(c[0] == cwd@[0]@);
                }
                if spells(&first, "/") {
                    (false, 1)
                } else {
                    (false, 0)
                }
            } else {
                (false, 0)
            }
        },
        None => (false, 0),
    }
}

/// The text of the segment for the working directory.
pub fn simple_cwd_string(
    shell: Shell,
    cwd_max_depth: u8,
    cwd: &Vec<String>,
    home: Option<&Vec<String>>,
) -> (out: String)
    ensures
        out@ == cwd_text(shell, cwd_max_depth, cwd.deep_view(), home.deep_view()),
{
    let ghost c = cwd.deep_view();
    let (in_home, start) = relative_start(cwd, home);
    let ghost parts = c.skip(start as int);
    let length = cwd.len() - start;
    let to_skip = if cwd_max_depth > 0 && length > cwd_max_depth as usize {
        length - cwd_max_depth as usize
    } else {
        0
    };
    if length == 0 {
        let out = as_bold(
            shell,
            if in_home {
                "~"
            } else {
                "/"
            },
        );
        proof {
            reveal_strlit("~");
            reveal_strlit("/");
            assert("~"@ =~= seq!['~']);
            assert("/"@ =~= seq!['/']);
        }
        return out;
    }
    let mut out = String::new();
    if in_home {
        out.push('~');
    }
    if to_skip > 0 {
        out.push('/');
        out.push('\u{e2}');
        out.push('\u{20ac}');
        out.push('\u{a6}');
    }
    let ghost head = out@;
    assert(head =~= (if in_home {
        seq!['~']
    } else {
        Seq::<char>::empty()
    }) + (if to_skip > 0 {
        omission()
    } else {
        Seq::<char>::empty()
    }));
    let last = cwd.len() - 1;
    let mut i: usize = start + to_skip;
    assert(parts.subrange(to_skip as int, to_skip as int) =~= Seq::<Seq<char>>::empty());
    assert(out@ =~= head + joined(parts.subrange(to_skip as int, to_skip as int)));
    while i < last
        invariant
            start + to_skip <= i <= last < cwd.len(),
            c == cwd.deep_view(),
            parts == c.skip(start as int),
            out@ == head + joined(parts.subrange(to_skip as int, i - start)),
        decreases last - i,
    {
        let ghost shown = parts.subrange(to_skip as int, i - start);
        let ghost more = parts.subrange(to_skip as int, i - start + 1);
        out.push('/');
        out.append(cwd[i].as_str());
        proof {
            assert(more.drop_last() =~= shown);
            assert(more.last() == cwd@[i as int]@);
            assert(out@ =~= head + joined(more));
        }
        i += 1;
    }
    out.push('/');
    let name = as_bold(shell, cwd[last].as_str());
    out.append(name.as_str());
    proof {
        assert(parts.last() == cwd@[last as int]@);
        assert(out@ =~= head + joined(parts.subrange(to_skip as int, parts.len() - 1)) + seq!['/']
            + bold_spec(shell, parts.last()));
    }
    out
}

/// The prompt after the segment for the working directory `cwd` has been
/// added, `home` being the home directory. The text of the segment holds
/// escape sequences of its own, so the segment is marked as quoted.
pub open spec fn with_cwd(
    before: PowerlineView,
    max_depth: u8,
    cwd: Seq<Seq<char>>,
    home: Option<Seq<Seq<char>>>,
) -> PowerlineView {
    PowerlineView {
        segments: before.segments.push(
            SegmentView {
                escaped: true,
                ..SegmentView::plain(
                    before.theme.path_bg,
                    before.theme.path_fg,
                    cwd_text(before.shell, max_depth, cwd, home),
                )
            },
        ),
        ..before
    }
}

/// Adds the segment for the working directory `cwd`, given as the list of
/// its path components, the root being the component `/`. The home
/// directory is that of the user, whatever it is.
pub fn segment_cwd(p: &mut Powerline, cwd_max_depth: u8, cwd: &Vec<String>)
    ensures
        exists|home: Option<Seq<Seq<char>>>| final(p)@ == #[trigger] with_cwd(
            old(p)@,
            cwd_max_depth,
            cwd.deep_view(),
            home,
        ),
        final(p).repository == old(p).repository,
{
    let home = home_dir();
    let text = simple_cwd_string(p.shell, cwd_max_depth, cwd, home.as_ref());
    p.push(Segment::new(p.theme.path_bg, p.theme.path_fg, text).dont_escape());
    assert(p@ == with_cwd(old(p)@, cwd_max_depth, cwd.deep_view(), home.deep_view()));
}

} // verus!
