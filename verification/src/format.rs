//! The escape sequences of each shell: colours, resets, bold, and the
//! quoting of characters that a shell would otherwise interpret.

use crate::text::{decimal, push_decimal};
use crate::Shell;
use vstd::prelude::*;
use vstd::string::StringExecFns;

verus! {

/// The SGR sequence for `code`, wrapped the way `shell` needs it so that the
/// sequence does not count towards the width of the prompt.
pub open spec fn sgr_spec(shell: Shell, code: Seq<char>) -> Seq<char> {
    match shell {
        Shell::Bare => "\x1b["@ + code + "m"@,
        Shell::Bash => "\\[\\e["@ + code + "m\\]"@,
        Shell::Zsh => "%{\x1b["@ + code + "m%}"@,
    }
}

/// The sequence that selects `color` as the foreground.
pub open spec fn fg_spec(shell: Shell, color: u8) -> Seq<char> {
    sgr_spec(shell, "38;5;"@ + decimal(color as nat))
}

/// The sequence that selects `color` as the background.
pub open spec fn bg_spec(shell: Shell, color: u8) -> Seq<char> {
    sgr_spec(shell, "48;5;"@ + decimal(color as nat))
}

/// The sequence that puts the foreground (`fg`) or the background back to
/// the terminal's default.
pub open spec fn reset_spec(shell: Shell, fg: bool) -> Seq<char> {
    sgr_spec(
        shell,
        if fg {
            "39"@
        } else {
            "49"@
        },
    )
}

/// `text` between bold-on and bold-off.
pub open spec fn bold_spec(shell: Shell, text: Seq<char>) -> Seq<char> {
    sgr_spec(shell, "1"@) + text + sgr_spec(shell, "22"@)
}

/// What one character becomes when it is quoted for `shell`. Bash gets a
/// backslash before a backslash, a `$` and a `"`. Zsh gets a `%` before a
/// `%` and a `)`, and a backslash before a `$`. Nothing else changes.
pub open spec fn escape_char(shell: Shell, c: char) -> Seq<char> {
    match shell {
        Shell::Bare => seq![c],
        Shell::Bash => if c == '\\' || c == '$' || c == '"' {
            seq!['\\', c]
        } else {
            seq![c]
        },
        Shell::Zsh => if c == '%' || c == ')' {
            seq!['%', c]
        } else if c == '$' {
            seq!['\\', c]
        } else {
            seq![c]
        },
    }
}

/// `text` quoted for `shell`: every character is replaced by its quoted
/// form, once and in order.
pub open spec fn escape_spec(shell: Shell, text: Seq<char>) -> Seq<char>
    decreases text.len(),
{
    if text.len() == 0 {
        Seq::empty()
    } else {
        escape_spec(shell, text.drop_last()) + escape_char(shell, text.last())
    }
}

/// Quoting for the bare dialect changes nothing.
pub proof fn lemma_escape_bare_is_identity(text: Seq<char>)
    ensures
        escape_spec(Shell::Bare, text) == text,
    decreases text.len(),
{
    if text.len() > 0 {
        lemma_escape_bare_is_identity(text.drop_last());
        assert(text.drop_last() + seq![text.last()] =~= text);
    }
}

/// Quoted for a shell, no `$` stands bare: each has a backslash before it,
/// so that the shell does not expand what follows.
pub proof fn lemma_escape_guards_dollar(shell: Shell, text: Seq<char>)
    requires
        shell != Shell::Bare,
    ensures
        forall|i: int|
            0 <= i < escape_spec(shell, text).len() && #[trigger] escape_spec(shell, text)[i] == '$'
                ==> i > 0 && escape_spec(shell, text)[i - 1] == '\\',
    decreases text.len(),
{
    if text.len() > 0 {
        lemma_escape_guards_dollar(shell, text.drop_last());
        let before = escape_spec(shell, text.drop_last());
        let last = escape_char(shell, text.last());
        let all = escape_spec(shell, text);
        assert forall|i: int| 0 <= i < all.len() && #[trigger] all[i] == '$' implies i > 0 && all[i
            - 1] == '\\' by {
            if i < before.len() {
                assert(all[i] == before[i]);
                assert(all[i - 1] == before[i - 1]);
            } else {
                assert(all[i] == last[i - before.len()]);
                assert(last.len() == 2 && i == before.len() + 1);
                assert(all[i - 1] == last[0]);
            }
        }
    }
}

/// Quoting works character by character: the quoted form of two texts put
/// together is their quoted forms put together.
pub proof fn lemma_escape_concat(shell: Shell, a: Seq<char>, b: Seq<char>)
    ensures
        escape_spec(shell, a + b) == escape_spec(shell, a) + escape_spec(shell, b),
    decreases b.len(),
{
    if b.len() == 0 {
        assert(a + b =~= a);
        assert(escape_spec(shell, a) + escape_spec(shell, b) =~= escape_spec(shell, a));
    } else {
        lemma_escape_concat(shell, a, b.drop_last());
        assert((a + b).drop_last() =~= a + b.drop_last());
        assert((a + b).last() == b.last());
        assert(escape_spec(shell, a + b) =~= escape_spec(shell, a) + escape_spec(shell, b));
    }
}

/// The SGR sequence for `code`, as `shell` needs it.
pub fn sgr_code(shell: Shell, code: &str) -> (out: String)
    ensures
        out@ == sgr_spec(shell, code@),
{
    let mut out = String::new();
    match shell {
        Shell::Bare => {
            out.append("\x1b[");
            out.append(code);
            out.append("m");
        },
        Shell::Bash => {
            out.append("\\[\\e[");
            out.append(code);
            out.append("m\\]");
        },
        Shell::Zsh => {
            out.append("%{\x1b[");
            out.append(code);
            out.append("m%}");
        },
    }
    assert(out@ =~= sgr_spec(shell, code@));
    out
}

/// The sequence that selects `color` as the foreground.
pub fn fg(shell: Shell, color: u8) -> (out: String)
    ensures
        out@ == fg_spec(shell, color),
{
    let mut code = String::new();
    code.append("38;5;");
    push_decimal(&mut code, color as usize);
    assert(code@ =~= "38;5;"@ + decimal(color as nat));
    sgr_code(shell, code.as_str())
}

/// The sequence that selects `color` as the background.
pub fn bg(shell: Shell, color: u8) -> (out: String)
    ensures
        out@ == bg_spec(shell, color),
{
    let mut code = String::new();
    code.append("48;5;");
    push_decimal(&mut code, color as usize);
    assert(code@ =~= "48;5;"@ + decimal(color as nat));
    sgr_code(shell, code.as_str())
}

/// The sequence that puts the foreground (`fg`) or the background back to
/// the default.
pub fn reset(shell: Shell, fg: bool) -> (out: String)
    ensures
        out@ == reset_spec(shell, fg),
{
    sgr_code(
        shell,
        if fg {
            "39"
        } else {
            "49"
        },
    )
}

/// `text` between bold-on and bold-off.
pub fn as_bold(shell: Shell, text: &str) -> (out: String)
    ensures
        out@ == bold_spec(shell, text@),
{
    let mut out = sgr_code(shell, "1");
    out.append(text);
    let off = sgr_code(shell, "22");
    out.append(off.as_str());
    out
}

/// Rewrites `string` so that `shell` prints it as it stands.
pub fn escape(shell: Shell, string: &mut String)
    ensures
        final(string)@ == escape_spec(shell, old(string)@),
        shell == Shell::Bare ==> final(string)@ == old(string)@,
{
    broadcast use vstd::string::axiom_spec_iter;

    proof {
        lemma_escape_bare_is_identity(string@);
    }
    if shell == Shell::Bare {
        return ;
    }
    let mut output = String::new();
    let text: &str = string.as_str();
    for c in it: text.chars()
        invariant
            it.seq() == text@,
            shell != Shell::Bare,
            output@ == escape_spec(shell, text@.take(it.index())),
    {
        let ghost done = output@;
        assert(text@.take(it.index() + 1).drop_last() =~= text@.take(it.index()));
        match shell {
            Shell::Bash => {
                if c == '\\' || c == '$' || c == '"' {
                    output.push('\\');
                }
                output.push(c);
            },
            _ => {
                if c == '%' || c == ')' {
                    output.push('%');
                } else if c == '$' {
                    output.push('\\');
                }
                output.push(c);
            },
        }
        assert(output@ =~= done + escape_char(shell, c));
    }
    assert(text@.take(text@.len() as int) =~= text@);
    *string = output;
}

} // verus!
