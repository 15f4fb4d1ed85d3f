//! The segment that shows how the last command ended.

use crate::segments::{Segment, SegmentView};
use crate::text::{decimal, push_decimal};
use crate::theme::Theme;
use crate::{Powerline, PowerlineView};
use vstd::prelude::*;

verus! {

/// The sign shown after a command that succeeded.
pub const PROMPT_SIGN: char = '\u{1204d}';

/// The segment for the exit code `error`: the sign in the colours of
/// success for 0, the code itself in the colours of failure for any other.
pub open spec fn root_segment(theme: Theme, error: u8) -> SegmentView {
    if error == 0 {
        SegmentView::plain(theme.cmd_passed_bg, theme.cmd_passed_fg, seq![PROMPT_SIGN, ' '])
    } else {
        SegmentView::plain(theme.cmd_failed_bg, theme.cmd_failed_fg, decimal(error as nat))
    }
}

/// Adds the segment for the exit code `error` of the last command.
pub fn segment_root(p: &mut Powerline, error: u8)
    ensures
        final(p)@ == (PowerlineView {
            segments: old(p)@.segments.push(root_segment(old(p)@.theme, error)),
            ..old(p)@
        }),
        final(p).repository == old(p).repository,
{
    let mut text = String::new();
    if error == 0 {
        text.push(PROMPT_SIGN);
        text.push(' ');
        assert(text@ =~= seq![PROMPT_SIGN, ' ']);
        p.push(Segment::new(p.theme.cmd_passed_bg, p.theme.cmd_passed_fg, text));
        return ;
    }
    push_decimal(&mut text, error as usize);
    assert(text@ =~= decimal(error as nat));
    p.push(Segment::new(p.theme.cmd_failed_bg, p.theme.cmd_failed_fg, text));
}

} // verus!
