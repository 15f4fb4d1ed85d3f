//! A prompt line drawn as a row of coloured segments: the segments, the
//! escape sequences of three shells, the theme and its overrides, and the
//! rules that turn version-control data into segments.

use crate::segments::segment_git::{GitCache, GitCacheView};
use crate::segments::{
    count_piece, lemma_count_piece_concat, lemma_resets_of_segment, pieces_text, views, Piece, Segment,
    SegmentView,
};
use crate::theme::Theme;
use vstd::prelude::*;
use vstd::string::StringExecFns;

pub mod format;
pub mod segments;
pub mod text;
pub mod theme;

verus! {

/// The escape-sequence convention the prompt is written for.
#[derive(Clone, Copy, Debug, PartialEq, Eq, Structural)]
pub enum Shell {
    /// Plain ANSI sequences.
    Bare,
    /// Sequences wrapped in `\[` and `\]`.
    Bash,
    /// Sequences wrapped in `%{` and `%}`.
    Zsh,
}

/// The prompt under construction: the segments in the order in which they
/// were added, and what their producers share.
pub struct Powerline {
    /// The segments, first to last.
    pub segments: Vec<Segment>,
    /// The colours and glyphs that the producers draw with.
    pub theme: Theme,
    /// The shell that the prompt is written for.
    pub shell: Shell,
    /// What is known of the repository.
    pub git: GitCache,
    /// The repository itself, once it has been found.
    pub repository: Option<git2::Repository>,
}

/// What a prompt under construction holds.
pub struct PowerlineView {
    pub segments: Seq<SegmentView>,
    pub theme: Theme,
    pub shell: Shell,
    pub git: GitCacheView,
}

impl View for Powerline {
    type V = PowerlineView;

    open spec fn view(&self) -> PowerlineView {
        PowerlineView {
            segments: views(self.segments@),
            theme: self.theme,
            shell: self.shell,
            git: self.git.deep_view(),
        }
    }
}

/// The segment after the one at `i`, if there is one.
pub open spec fn next_of(segments: Seq<SegmentView>, i: int) -> Option<SegmentView> {
    if 0 <= i + 1 < segments.len() {
        Some(segments[i + 1])
    } else {
        None
    }
}

/// The first `n` segments drawn from left to right, each with the segment
/// after it as its neighbour.
pub open spec fn row_ltr(segments: Seq<SegmentView>, n: nat) -> Seq<Piece>
    decreases n,
{
    if n == 0 {
        Seq::empty()
    } else {
        row_ltr(segments, (n - 1) as nat) + segments[n - 1].print_pieces(
            next_of(segments, n - 1),
        )
    }
}

/// The segments from the one at `from` on, drawn from right to left: the
/// last of them comes first, and each has the segment after it, which
/// stands to its left, as its neighbour.
pub open spec fn row_rtl(segments: Seq<SegmentView>, from: nat) -> Seq<Piece>
    decreases segments.len() - from,
{
    if from >= segments.len() {
        Seq::empty()
    } else {
        row_rtl(segments, from + 1) + segments[from as int].print_rtl_pieces(
            next_of(segments, from as int),
        )
    }
}

/// The whole row in one direction.
pub open spec fn row(segments: Seq<SegmentView>, rtl: bool) -> Seq<Piece> {
    if rtl {
        row_rtl(segments, 0)
    } else {
        row_ltr(segments, segments.len())
    }
}

/// The segments once each has been through the quoting for `shell`.
pub open spec fn escaped_all(segments: Seq<SegmentView>, shell: Shell) -> Seq<SegmentView> {
    Seq::new(segments.len(), |i: int| segments[i].escape(shell))
}

/// The prompt text for `segments`: each segment is quoted for `shell`
/// unless it was quoted before, and the row is drawn in the direction asked for.
pub open spec fn rendered(segments: Seq<SegmentView>, shell: Shell, rtl: bool) -> Seq<char> {
    pieces_text(shell, row(escaped_all(segments, shell), rtl))
}

impl Powerline {
    /// A prompt without segments, with nothing known of the repository.
    pub fn new(theme: Theme, shell: Shell) -> (p: Powerline)
        ensures
            p@ == (PowerlineView {
                segments: Seq::empty(),
                theme,
                shell,
                git: GitCacheView::untried(),
            }),
            p.repository is None,
    {
        let p = Powerline {
            segments: Vec::new(),
            theme,
            shell,
            git: GitCache::new(),
            repository: None,
        };
        assert(p@.segments =~= Seq::<SegmentView>::empty());
        p
    }

    /// Adds a segment at the end of the row.
    pub fn push(&mut self, segment: Segment)
        ensures
            final(self)@ == (PowerlineView {
                segments: old(self)@.segments.push(segment@),
                ..old(self)@
            }),
            final(self).repository == old(self).repository,
    {
        self.segments.push(segment);
        assert(views(self.segments@) =~= views(old(self).segments@).push(segment@));
    }

    /// Quotes every segment that is not yet quoted.
    fn escape_all(&mut self)
        ensures
            final(self)@ == (PowerlineView {
                segments: escaped_all(old(self)@.segments, old(self)@.shell),
                ..old(self)@
            }),
            final(self).repository == old(self).repository,
    {
        let shell = self.shell;
        let n = self.segments.len();
        let mut i: usize = 0;
        while i < n
            invariant
                i <= n,
                n == old(self).segments@.len(),
                self.segments@.len() == n,
                self.theme == old(self).theme,
                self.shell == shell,
                shell == old(self).shell,
                self.git == old(self).git,
                self.repository == old(self).repository,
                forall|j: int| 0 <= j < i ==> (#[trigger] self.segments@[j])@ == old(self).segments@[j]@.escape(shell),
                forall|j: int| i <= j < n ==> (#[trigger] self.segments@[j]) == old(self).segments@[j],
            decreases n - i,
        {
            self.segments[i].escape(shell);
            i += 1;
        }
        assert(views(self.segments@) =~= escaped_all(views(old(self).segments@), shell));
    }

    /// Draws the row from left to right; every segment is quoted.
    fn draw_ltr(&self) -> (out: String)
        requires
            forall|j: int| 0 <= j < self@.segments.len() ==> (#[trigger] self@.segments[j]).escaped,
        ensures
            out@ == pieces_text(self@.shell, row_ltr(self@.segments, self@.segments.len())),
    {
        let ghost all = self@.segments;
        let n = self.segments.len();
        let mut out = String::new();
        let mut i: usize = 0;
        while i < n
            invariant
                i <= n,
                n == self.segments@.len(),
                all == self@.segments,
                forall|j: int| 0 <= j < all.len() ==> (#[trigger] all[j]).escaped,
                out@ == pieces_text(self.shell, row_ltr(all, i as nat)),
            decreases n - i,
        {
            let next = if i + 1 < n {
                Some(&self.segments[i + 1])
            } else {
                None
            };
            assert(all[i as int] == self.segments@[i as int]@);
            let part = self.segments[i].print(next, self.shell, &self.theme);
            out.append(part.as_str());
            proof {
                crate::segments::lemma_pieces_text_concat(
                    self.shell,
                    row_ltr(all, i as nat),
                    all[i as int].print_pieces(next_of(all, i as int)),
                );
            }
            i += 1;
        }
        out
    }

    /// Draws the row from right to left; every segment is quoted.
    fn draw_rtl(&self) -> (out: String)
        requires
            forall|j: int| 0 <= j < self@.segments.len() ==> (#[trigger] self@.segments[j]).escaped,
        ensures
            out@ == pieces_text(self@.shell, row_rtl(self@.segments, 0)),
    {
        let ghost all = self@.segments;
        let n = self.segments.len();
        let mut out = String::new();
        let mut i: usize = n;
        while i > 0
            invariant
                i <= n,
                n == self.segments@.len(),
                all == self@.segments,
                forall|j: int| 0 <= j < all.len() ==> (#[trigger] all[j]).escaped,
                out@ == pieces_text(self.shell, row_rtl(all, i as nat)),
            decreases i,
        {
            i -= 1;
            let next = if i + 1 < n {
                Some(&self.segments[i + 1])
            } else {
                None
            };
            assert(all[i as int] == self.segments@[i as int]@);
            let part = self.segments[i].print_rtl(next, self.shell, &self.theme);
            out.append(part.as_str());
            proof {
                crate::segments::lemma_pieces_text_concat(
                    self.shell,
                    row_rtl(all, (i + 1) as nat),
                    all[i as int].print_rtl_pieces(next_of(all, i as int)),
                );
            }
        }
        out
    }

    /// Writes the prompt: quotes every segment for the shell, once, and
    /// draws the row from left to right, or from right to left where `rtl`
    /// is set. The segments stay, quoted.
    pub fn render(&mut self, rtl: bool) -> (out: String)
        ensures
            out@ == rendered(old(self)@.segments, old(self)@.shell, rtl),
            old(self)@.segments.len() == 0 ==> out@ == Seq::<char>::empty(),
            final(self)@ == (PowerlineView {
                segments: escaped_all(old(self)@.segments, old(self)@.shell),
                ..old(self)@
            }),
            final(self).repository == old(self).repository,
    {
        self.escape_all();
        if rtl {
            self.draw_rtl()
        } else {
            self.draw_ltr()
        }
    }
}

/// A row without segments is drawn as nothing at all: no text, no
/// separator, no reset.
pub proof fn lemma_render_empty(shell: Shell, rtl: bool)
    ensures
        row(Seq::<SegmentView>::empty(), rtl) == Seq::<Piece>::empty(),
        rendered(Seq::<SegmentView>::empty(), shell, rtl) == Seq::<char>::empty(),
{
    assert(escaped_all(Seq::<SegmentView>::empty(), shell) =~= Seq::<SegmentView>::empty());
}

/// Quoting every segment a second time, for any shell, changes nothing.
pub proof fn lemma_escaped_all_once(segments: Seq<SegmentView>, first: Shell, second: Shell)
    ensures
        escaped_all(escaped_all(segments, first), second) == escaped_all(segments, first),
{
    assert(escaped_all(escaped_all(segments, first), second) =~= escaped_all(segments, first));
}

/// Writing the prompt twice in the same dialect and direction gives the
/// same text both times: the first run leaves the segments quoted, and the
/// second does not quote them again.
pub proof fn lemma_render_twice(segments: Seq<SegmentView>, shell: Shell, rtl: bool)
    ensures
        rendered(escaped_all(segments, shell), shell, rtl) == rendered(segments, shell, rtl),
{
    lemma_escaped_all_once(segments, shell, shell);
}

/// No segment but the last resets a colour in a row drawn from left to right.
proof fn lemma_inner_resets(segments: Seq<SegmentView>, n: nat, piece: Piece)
    requires
        n < segments.len(),
        piece == Piece::ResetFg || piece == Piece::ResetBg,
    ensures
        count_piece(row_ltr(segments, n), piece) == 0,
    decreases n,
{
    if n > 0 {
        lemma_inner_resets(segments, (n - 1) as nat, piece);
        lemma_resets_of_segment(segments[n - 1], next_of(segments, n - 1));
        lemma_count_piece_concat(
            row_ltr(segments, (n - 1) as nat),
            segments[n - 1].print_pieces(next_of(segments, n - 1)),
            piece,
        );
    }
}

/// A row of at least one segment, drawn from left to right, resets the
/// foreground exactly once and the background exactly once: the last
/// segment does so, and no other.
pub proof fn lemma_row_resets_once(segments: Seq<SegmentView>)
    requires
        segments.len() > 0,
    ensures
        count_piece(row(segments, false), Piece::ResetFg) == 1,
        count_piece(row(segments, false), Piece::ResetBg) == 1,
        next_of(segments, segments.len() - 1) is None,
{
    let n = segments.len();
    lemma_inner_resets(segments, (n - 1) as nat, Piece::ResetFg);
    lemma_inner_resets(segments, (n - 1) as nat, Piece::ResetBg);
    lemma_resets_of_segment(segments[n - 1], None);
    lemma_count_piece_concat(
        row_ltr(segments, (n - 1) as nat),
        segments[n - 1].print_pieces(None),
        Piece::ResetFg,
    );
    lemma_count_piece_concat(
        row_ltr(segments, (n - 1) as nat),
        segments[n - 1].print_pieces(None),
        Piece::ResetBg,
    );
}

} // verus!
