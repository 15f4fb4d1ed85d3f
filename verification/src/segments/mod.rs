//! The segment, the unit of the prompt, and how one segment is drawn beside
//! its neighbour.

use crate::format::{
    bg, bg_spec, escape, escape_spec, fg, fg_spec, reset, reset_spec, sgr_code, sgr_spec,
};
use crate::theme::Theme;
use crate::Shell;
use vstd::prelude::*;
use vstd::string::StringExecFns;

pub mod repository;
pub mod segment_cwd;
pub mod segment_git;
pub mod segment_root;

pub use self::segment_cwd::segment_cwd;
pub use self::segment_git::{segment_git, segment_gitstage};
pub use self::segment_root::segment_root;

verus! {

/// The glyph that closes a segment drawn from left to right.
pub const SEPARATOR: char = '\u{e0c6}';

/// The glyph that opens a segment drawn from right to left.
pub const SEPARATOR_RTL: char = '\u{e0b2}';

/// One coloured piece of text in the prompt.
pub struct Segment {
    bg: u8,
    fg: u8,
    before: &'static str,
    after: &'static str,
    conditional: bool,
    no_space_after: bool,
    bold: bool,
    escaped: bool,
    text: String,
}

/// What a segment holds.
pub struct SegmentView {
    /// Background colour.
    pub bg: u8,
    /// Foreground colour.
    pub fg: u8,
    /// Written before the coloured region.
    pub before: Seq<char>,
    /// Written after the coloured region.
    pub after: Seq<char>,
    /// No separator is drawn between this segment and the one before it.
    pub conditional: bool,
    /// No space follows the text.
    pub no_space_after: bool,
    /// The text is drawn bold.
    pub bold: bool,
    /// The text is already quoted for the shell.
    pub escaped: bool,
    /// The text.
    pub text: Seq<char>,
}

/// What the drawing of a segment is made of, whatever the shell.
pub enum Piece {
    /// Characters written as they are.
    Text(Seq<char>),
    /// Selects a foreground colour.
    Fg(u8),
    /// Selects a background colour.
    Bg(u8),
    /// Puts the foreground back to the default.
    ResetFg,
    /// Puts the background back to the default.
    ResetBg,
    /// Turns bold on.
    BoldOn,
    /// Turns bold off.
    BoldOff,
    /// One space.
    Space,
    /// The separator glyph of the left-to-right direction.
    Separator,
    /// The separator glyph of the right-to-left direction.
    SeparatorRtl,
}

/// The characters that `shell` gets for one piece.
pub open spec fn piece_text(shell: Shell, piece: Piece) -> Seq<char> {
    match piece {
        Piece::Text(text) => text,
        Piece::Fg(color) => fg_spec(shell, color),
        Piece::Bg(color) => bg_spec(shell, color),
        Piece::ResetFg => reset_spec(shell, true),
        Piece::ResetBg => reset_spec(shell, false),
        Piece::BoldOn => sgr_spec(shell, "1"@),
        Piece::BoldOff => sgr_spec(shell, "22"@),
        Piece::Space => seq![' '],
        Piece::Separator => seq![SEPARATOR],
        Piece::SeparatorRtl => seq![SEPARATOR_RTL],
    }
}

/// The characters that `shell` gets for a row of pieces.
pub open spec fn pieces_text(shell: Shell, pieces: Seq<Piece>) -> Seq<char>
    decreases pieces.len(),
{
    if pieces.len() == 0 {
        Seq::empty()
    } else {
        pieces_text(shell, pieces.drop_last()) + piece_text(shell, pieces.last())
    }
}

/// How often `piece` occurs in `pieces`.
pub open spec fn count_piece(pieces: Seq<Piece>, piece: Piece) -> nat
    decreases pieces.len(),
{
    if pieces.len() == 0 {
        0
    } else {
        count_piece(pieces.drop_last(), piece) + if pieces.last() == piece {
            1nat
        } else {
            0nat
        }
    }
}

/// The text of two rows of pieces is the text of one after that of the other.
pub proof fn lemma_pieces_text_concat(shell: Shell, a: Seq<Piece>, b: Seq<Piece>)
    ensures
        pieces_text(shell, a + b) == pieces_text(shell, a) + pieces_text(shell, b),
    decreases b.len(),
{
    if b.len() == 0 {
        assert(a + b =~= a);
        assert(pieces_text(shell, a) + pieces_text(shell, b) =~= pieces_text(shell, a));
    } else {
        lemma_pieces_text_concat(shell, a, b.drop_last());
        assert((a + b).drop_last() =~= a + b.drop_last());
        assert((a + b).last() == b.last());
        assert(pieces_text(shell, a + b) =~= pieces_text(shell, a) + pieces_text(shell, b));
    }
}

/// A piece occurs in two rows as often as in the one and the other together.
pub proof fn lemma_count_piece_concat(a: Seq<Piece>, b: Seq<Piece>, piece: Piece)
    ensures
        count_piece(a + b, piece) == count_piece(a, piece) + count_piece(b, piece),
    decreases b.len(),
{
    if b.len() == 0 {
        assert(a + b =~= a);
    } else {
        lemma_count_piece_concat(a, b.drop_last(), piece);
        assert((a + b).drop_last() =~= a + b.drop_last());
        assert((a + b).last() == b.last());
    }
}

impl View for Segment {
    type V = SegmentView;

    closed spec fn view(&self) -> SegmentView {
        SegmentView {
            bg: self.bg,
            fg: self.fg,
            before: self.before@,
            after: self.after@,
            conditional: self.conditional,
            no_space_after: self.no_space_after,
            bold: self.bold,
            escaped: self.escaped,
            text: self.text@,
        }
    }
}

/// What a row of segments holds.
pub open spec fn views(segments: Seq<Segment>) -> Seq<SegmentView> {
    Seq::new(segments.len(), |i: int| segments[i]@)
}

/// What is known of the neighbour of a segment.
pub open spec fn neighbour(next: Option<&Segment>) -> Option<SegmentView> {
    match next {
        Some(segment) => Some(segment@),
        None => None,
    }
}

impl SegmentView {
    /// A segment with nothing but its colours and its text.
    pub open spec fn plain(bg: u8, fg: u8, text: Seq<char>) -> SegmentView {
        SegmentView {
            bg,
            fg,
            before: Seq::empty(),
            after: Seq::empty(),
            conditional: false,
            no_space_after: false,
            bold: false,
            escaped: false,
            text,
        }
    }

    /// This segment once it has been through the quoting for `shell`: a
    /// segment that is already quoted stays as it is.
    pub open spec fn escape(self, shell: Shell) -> SegmentView {
        if self.escaped {
            self
        } else {
            SegmentView { text: escape_spec(shell, self.text), escaped: true, ..self }
        }
    }

    /// The text, between bold-on and bold-off where the segment is bold.
    pub open spec fn body(self) -> Seq<Piece> {
        if self.bold {
            seq![Piece::BoldOn, Piece::Text(self.text), Piece::BoldOff]
        } else {
            seq![Piece::Text(self.text)]
        }
    }

    /// The space after the text. There is none where the segment asks for
    /// none, nor where the neighbour has the same background, so that the
    /// two run into each other.
    pub open spec fn gap(self, next: Option<SegmentView>) -> Seq<Piece> {
        if !self.no_space_after && (next matches Some(n) ==> n.bg != self.bg) {
            seq![Piece::Space]
        } else {
            Seq::empty()
        }
    }

    /// The foreground of the separator towards a neighbour with the
    /// background `next_bg`: this segment's background, or the neighbour's
    /// where this segment has the neutral background 0.
    pub open spec fn separator_fg(self, next_bg: u8) -> u8 {
        if self.bg == 0 {
            next_bg
        } else {
            self.bg
        }
    }

    /// The separator of the left-to-right direction. There is none
    /// before a conditional neighbour nor between equal backgrounds. The last
    /// segment closes the row: its separator stands on the default
    /// background, and the default foreground follows it.
    pub open spec fn separator(self, next: Option<SegmentView>) -> Seq<Piece> {
        match next {
            Some(n) => if n.conditional || n.bg == self.bg {
                Seq::empty()
            } else {
                seq![Piece::Fg(self.separator_fg(n.bg)), Piece::Bg(n.bg), Piece::Separator]
            },
            None => seq![Piece::Fg(self.bg), Piece::ResetBg, Piece::Separator, Piece::ResetFg],
        }
    }

    /// The separator of the right-to-left direction, under the same rules;
    /// the last segment opens with a separator on the background that is
    /// current.
    pub open spec fn separator_rtl(self, next: Option<SegmentView>) -> Seq<Piece> {
        match next {
            Some(n) => if n.conditional || n.bg == self.bg {
                Seq::empty()
            } else {
                seq![Piece::Fg(self.separator_fg(n.bg)), Piece::Bg(n.bg), Piece::SeparatorRtl]
            },
            None => seq![Piece::Fg(self.bg), Piece::SeparatorRtl],
        }
    }

    /// The segment drawn from left to right, `next` being the segment to
    /// its right.
    pub open spec fn print_pieces(self, next: Option<SegmentView>) -> Seq<Piece> {
        seq![Piece::Text(self.before), Piece::Fg(self.fg), Piece::Bg(self.bg), Piece::Space]
            + self.body() + self.gap(next) + self.separator(next) + seq![Piece::Text(self.after)]
    }

    /// The segment drawn from right to left, `next` being the segment to
    /// its left. Both colours are reset after every segment.
    pub open spec fn print_rtl_pieces(self, next: Option<SegmentView>) -> Seq<Piece> {
        seq![Piece::Text(self.after)] + self.separator_rtl(next) + seq![
            Piece::Fg(self.fg),
            Piece::Bg(self.bg),
            Piece::Space,
        ] + self.body() + self.gap(next) + seq![
            Piece::ResetBg,
            Piece::ResetFg,
            Piece::Text(self.before),
        ]
    }
}

/// A segment is quoted at most once: once it has been through the quoting
/// for one shell, going through it again, for that shell or another,
/// changes nothing.
pub proof fn lemma_escape_once(segment: SegmentView, first: Shell, second: Shell)
    ensures
        segment.escape(first).escaped,
        segment.escape(first).escape(second) == segment.escape(first),
        segment.escaped ==> segment.escape(first) == segment,
{
}

/// How often `piece` occurs in the text of a segment and the space after it.
proof fn lemma_count_body(a: SegmentView, next: Option<SegmentView>, piece: Piece)
    ensures
        count_piece(a.body() + a.gap(next), piece) == (if piece == Piece::Text(a.text) {
            1nat
        } else {
            0nat
        }) + (if a.bold && piece == Piece::BoldOn {
            1nat
        } else {
            0nat
        }) + (if a.bold && piece == Piece::BoldOff {
            1nat
        } else {
            0nat
        }) + (if a.gap(next).len() > 0 && piece == Piece::Space {
            1nat
        } else {
            0nat
        }),
{
    reveal_with_fuel(count_piece, 4);
    lemma_count_piece_concat(a.body(), a.gap(next), piece);
}

/// Two neighbours with the same background run into each other, in either
/// direction and whatever the shell: the segment is drawn without a
/// separator and without a space after its text.
pub proof fn lemma_same_background_merges(a: SegmentView, b: SegmentView)
    requires
        a.bg == b.bg,
    ensures
        a.print_pieces(Some(b)) == seq![
            Piece::Text(a.before),
            Piece::Fg(a.fg),
            Piece::Bg(a.bg),
            Piece::Space,
        ] + a.body() + seq![Piece::Text(a.after)],
        a.print_rtl_pieces(Some(b)) == seq![
            Piece::Text(a.after),
            Piece::Fg(a.fg),
            Piece::Bg(a.bg),
            Piece::Space,
        ] + a.body() + seq![Piece::ResetBg, Piece::ResetFg, Piece::Text(a.before)],
        count_piece(a.print_pieces(Some(b)), Piece::Separator) == 0,
        count_piece(a.print_rtl_pieces(Some(b)), Piece::SeparatorRtl) == 0,
        count_piece(a.print_pieces(Some(b)), Piece::Space) == 1,
        count_piece(a.print_rtl_pieces(Some(b)), Piece::Space) == 1,
{
    let head = seq![Piece::Text(a.before), Piece::Fg(a.fg), Piece::Bg(a.bg), Piece::Space];
    let head_rtl = seq![Piece::Text(a.after), Piece::Fg(a.fg), Piece::Bg(a.bg), Piece::Space];
    let tail = seq![Piece::Text(a.after)];
    let tail_rtl = seq![Piece::ResetBg, Piece::ResetFg, Piece::Text(a.before)];
    let none = Seq::<Piece>::empty();
    assert(a.gap(Some(b)) == none);
    assert(a.separator(Some(b)) == none);
    assert(a.separator_rtl(Some(b)) == none);
    assert(a.print_pieces(Some(b)) =~= head + a.body() + tail);
    assert(a.print_rtl_pieces(Some(b)) =~= head_rtl + a.body() + tail_rtl);
    assert(a.body() + a.gap(Some(b)) =~= a.body());
    assert forall|piece: Piece| piece == Piece::Separator || piece == Piece::SeparatorRtl || piece
        == Piece::Space implies count_piece(head + a.body() + tail, piece) == count_piece(
        head,
        piece,
    ) && count_piece(head_rtl + a.body() + tail_rtl, piece) == count_piece(head_rtl, piece) by {
        reveal_with_fuel(count_piece, 5);
        lemma_count_body(a, Some(b), piece);
        lemma_count_piece_concat(head, a.body(), piece);
        lemma_count_piece_concat(head + a.body(), tail, piece);
        lemma_count_piece_concat(head_rtl, a.body(), piece);
        lemma_count_piece_concat(head_rtl + a.body(), tail_rtl, piece);
    }
    assert(count_piece(head, Piece::Separator) == 0 && count_piece(head_rtl, Piece::SeparatorRtl)
        == 0 && count_piece(head, Piece::Space) == 1 && count_piece(head_rtl, Piece::Space) == 1)
        by {
        reveal_with_fuel(count_piece, 5);
    }
}

/// In the text of any shell, a segment that runs into a neighbour with the
/// same background is its decoration, its colours, one space and its text,
/// and in neither direction anything between the text and what closes the
/// segment.
pub proof fn lemma_same_background_text(a: SegmentView, b: SegmentView, shell: Shell)
    requires
        a.bg == b.bg,
    ensures
        pieces_text(shell, a.print_pieces(Some(b))) == a.before + fg_spec(shell, a.fg) + bg_spec(
            shell,
            a.bg,
        ) + seq![' '] + pieces_text(shell, a.body()) + a.after,
        pieces_text(shell, a.print_rtl_pieces(Some(b))) == a.after + fg_spec(shell, a.fg)
            + bg_spec(shell, a.bg) + seq![' '] + pieces_text(shell, a.body()) + reset_spec(
            shell,
            false,
        ) + reset_spec(shell, true) + a.before,
{
    lemma_same_background_merges(a, b);
    let none = Seq::<Piece>::empty();
    let head = none.push(Piece::Text(a.before)).push(Piece::Fg(a.fg)).push(Piece::Bg(a.bg)).push(
        Piece::Space,
    );
    let head_rtl = none.push(Piece::Text(a.after)).push(Piece::Fg(a.fg)).push(
        Piece::Bg(a.bg),
    ).push(Piece::Space);
    let tail = none.push(Piece::Text(a.after));
    let tail_rtl = none.push(Piece::ResetBg).push(Piece::ResetFg).push(Piece::Text(a.before));
    assert(head =~= seq![Piece::Text(a.before), Piece::Fg(a.fg), Piece::Bg(a.bg), Piece::Space]);
    assert(head_rtl =~= seq![
        Piece::Text(a.after),
        Piece::Fg(a.fg),
        Piece::Bg(a.bg),
        Piece::Space,
    ]);
    assert(tail =~= seq![Piece::Text(a.after)]);
    assert(tail_rtl =~= seq![Piece::ResetBg, Piece::ResetFg, Piece::Text(a.before)]);
    lemma_pieces_text_push(shell, none, Piece::Text(a.before));
    lemma_pieces_text_push(shell, none.push(Piece::Text(a.before)), Piece::Fg(a.fg));
    lemma_pieces_text_push(
        shell,
        none.push(Piece::Text(a.before)).push(Piece::Fg(a.fg)),
        Piece::Bg(a.bg),
    );
    lemma_pieces_text_push(
        shell,
        none.push(Piece::Text(a.before)).push(Piece::Fg(a.fg)).push(Piece::Bg(a.bg)),
        Piece::Space,
    );
    lemma_pieces_text_push(shell, none, Piece::Text(a.after));
    lemma_pieces_text_push(shell, none.push(Piece::Text(a.after)), Piece::Fg(a.fg));
    lemma_pieces_text_push(
        shell,
        none.push(Piece::Text(a.after)).push(Piece::Fg(a.fg)),
        Piece::Bg(a.bg),
    );
    lemma_pieces_text_push(
        shell,
        none.push(Piece::Text(a.after)).push(Piece::Fg(a.fg)).push(Piece::Bg(a.bg)),
        Piece::Space,
    );
    lemma_pieces_text_push(shell, none, Piece::ResetBg);
    lemma_pieces_text_push(shell, none.push(Piece::ResetBg), Piece::ResetFg);
    lemma_pieces_text_push(
        shell,
        none.push(Piece::ResetBg).push(Piece::ResetFg),
        Piece::Text(a.before),
    );
    lemma_pieces_text_concat(shell, head, a.body());
    lemma_pieces_text_concat(shell, head + a.body(), tail);
    lemma_pieces_text_concat(shell, head_rtl, a.body());
    lemma_pieces_text_concat(shell, head_rtl + a.body(), tail_rtl);
    assert(pieces_text(shell, head) =~= a.before + fg_spec(shell, a.fg) + bg_spec(shell, a.bg)
        + seq![' ']);
    assert(pieces_text(shell, head_rtl) =~= a.after + fg_spec(shell, a.fg) + bg_spec(shell, a.bg)
        + seq![' ']);
    assert(pieces_text(shell, tail) =~= a.after);
    assert(pieces_text(shell, tail_rtl) =~= reset_spec(shell, false) + reset_spec(shell, true)
        + a.before);
    assert(pieces_text(shell, head + a.body() + tail) =~= a.before + fg_spec(shell, a.fg)
        + bg_spec(shell, a.bg) + seq![' '] + pieces_text(shell, a.body()) + a.after);
    assert(pieces_text(shell, head_rtl + a.body() + tail_rtl) =~= a.after + fg_spec(shell, a.fg)
        + bg_spec(shell, a.bg) + seq![' '] + pieces_text(shell, a.body()) + reset_spec(
        shell,
        false,
    ) + reset_spec(shell, true) + a.before);
}

/// How often each reset occurs in one segment drawn from left to right: once
/// in the segment that ends the row, and not at all in a segment that has a
/// neighbour.
pub proof fn lemma_resets_of_segment(a: SegmentView, next: Option<SegmentView>)
    ensures
        count_piece(a.print_pieces(next), Piece::ResetFg) == if next is None {
            1nat
        } else {
            0nat
        },
        count_piece(a.print_pieces(next), Piece::ResetBg) == if next is None {
            1nat
        } else {
            0nat
        },
{
    let head = seq![Piece::Text(a.before), Piece::Fg(a.fg), Piece::Bg(a.bg), Piece::Space];
    let middle = a.body() + a.gap(next);
    let tail = seq![Piece::Text(a.after)];
    assert(a.print_pieces(next) =~= head + middle + a.separator(next) + tail);
    assert forall|piece: Piece| piece == Piece::ResetFg || piece
        == Piece::ResetBg implies count_piece(a.print_pieces(next), piece) == if next is None {
        1nat
    } else {
        0nat
    } by {
        reveal_with_fuel(count_piece, 5);
        lemma_count_body(a, next, piece);
        lemma_count_piece_concat(head, middle, piece);
        lemma_count_piece_concat(head + middle, a.separator(next), piece);
        lemma_count_piece_concat(head + middle + a.separator(next), tail, piece);
    }
}

/// The segment that ends a row drawn from left to right resets the
/// foreground exactly once and the background exactly once.
pub proof fn lemma_last_segment_resets(a: SegmentView)
    ensures
        count_piece(a.print_pieces(None), Piece::ResetFg) == 1,
        count_piece(a.print_pieces(None), Piece::ResetBg) == 1,
{
    lemma_resets_of_segment(a, None);
}

/// The text of a row that ends in `piece` is the text of the row before it
/// and then that of `piece`.
pub proof fn lemma_pieces_text_push(shell: Shell, pieces: Seq<Piece>, piece: Piece)
    ensures
        pieces_text(shell, pieces.push(piece)) == pieces_text(shell, pieces) + piece_text(
            shell,
            piece,
        ),
{
    assert(pieces.push(piece).drop_last() =~= pieces);
}

/// Appends the text of one piece to a row that is being written.
fn emit(
    out: &mut String,
    chunk: &str,
    shell: Shell,
    Ghost(done): Ghost<Seq<Piece>>,
    Ghost(piece): Ghost<Piece>,
)
    requires
        old(out)@ == pieces_text(shell, done),
        chunk@ == piece_text(shell, piece),
    ensures
        final(out)@ == pieces_text(shell, done.push(piece)),
{
    out.append(chunk);
    proof {
        lemma_pieces_text_push(shell, done, piece);
    }
}

/// Appends one character as the text of one piece.
fn emit_char(
    out: &mut String,
    c: char,
    shell: Shell,
    Ghost(done): Ghost<Seq<Piece>>,
    Ghost(piece): Ghost<Piece>,
)
    requires
        old(out)@ == pieces_text(shell, done),
        seq![c] == piece_text(shell, piece),
    ensures
        final(out)@ == pieces_text(shell, done.push(piece)),
{
    out.push(c);
    proof {
        lemma_pieces_text_push(shell, done, piece);
        assert(old(out)@.push(c) =~= old(out)@ + seq![c]);
    }
}

impl Segment {
    /// A segment with the given colours and text, and nothing else set.
    pub fn new(bg: u8, fg: u8, text: String) -> (segment: Segment)
        ensures
            segment@ == SegmentView::plain(bg, fg, text@),
    {
        proof {
            reveal_strlit("");
            assert(""@ =~= Seq::<char>::empty());
        }
        Segment {
            bg,
            fg,
            before: "",
            after: "",
            conditional: false,
            no_space_after: false,
            bold: false,
            escaped: false,
            text,
        }
    }

    /// Marks the text as already quoted, so that it is drawn as it stands.
    pub fn dont_escape(self) -> (segment: Segment)
        ensures
            segment@ == (SegmentView { escaped: true, ..self@ }),
    {
        let mut segment = self;
        segment.escaped = true;
        segment
    }

    /// Has the text drawn bold.
    pub fn bold(self) -> (segment: Segment)
        ensures
            segment@ == (SegmentView { bold: true, ..self@ }),
    {
        let mut segment = self;
        segment.bold = true;
        segment
    }

    /// Sets what is written before the coloured region.
    pub fn with_before(self, before: &'static str) -> (segment: Segment)
        ensures
            segment@ == (SegmentView { before: before@, ..self@ }),
    {
        let mut segment = self;
        segment.before = before;
        segment
    }

    /// Sets what is written after the coloured region.
    pub fn with_after(self, after: &'static str) -> (segment: Segment)
        ensures
            segment@ == (SegmentView { after: after@, ..self@ }),
    {
        let mut segment = self;
        segment.after = after;
        segment
    }

    /// Has no separator drawn between this segment and the one before it.
    pub fn into_conditional(self) -> (segment: Segment)
        ensures
            segment@ == (SegmentView { conditional: true, ..self@ }),
    {
        let mut segment = self;
        segment.conditional = true;
        segment
    }

    /// Whether no separator is drawn between this segment and the one before
    /// it.
    pub fn is_conditional(&self) -> (conditional: bool)
        ensures
            conditional == self@.conditional,
    {
        self.conditional
    }

    /// Has no space follow the text.
    pub fn with_no_space_after(self) -> (segment: Segment)
        ensures
            segment@ == (SegmentView { no_space_after: true, ..self@ }),
    {
        let mut segment = self;
        segment.no_space_after = true;
        segment
    }

    /// The background colour.
    pub fn background(&self) -> (bg: u8)
        ensures
            bg == self@.bg,
    {
        self.bg
    }

    /// The foreground colour.
    pub fn foreground(&self) -> (fg: u8)
        ensures
            fg == self@.fg,
    {
        self.fg
    }

    /// The text as it stands now.
    pub fn text(&self) -> (text: &str)
        ensures
            text@ == self@.text,
    {
        self.text.as_str()
    }

    /// Whether the text is quoted for the shell.
    pub fn is_escaped(&self) -> (escaped: bool)
        ensures
            escaped == self@.escaped,
    {
        self.escaped
    }

    /// Quotes the text for `shell`, unless that has been done before.
    pub fn escape(&mut self, shell: Shell)
        ensures
            final(self)@ == old(self)@.escape(shell),
    {
        if self.escaped {
            return ;
        }
        escape(shell, &mut self.text);
        self.escaped = true;
    }

    /// Writes the colours of the segment and the space before its text.
    fn put_colors(&self, out: &mut String, shell: Shell, Ghost(done): Ghost<Seq<Piece>>)
        requires
            old(out)@ == pieces_text(shell, done),
        ensures
            final(out)@ == pieces_text(
                shell,
                done + seq![Piece::Fg(self@.fg), Piece::Bg(self@.bg), Piece::Space],
            ),
    {
        let ghost mut ps = done;
        let color = fg(shell, self.fg);
        emit(out, color.as_str(), shell, Ghost(ps), Ghost(Piece::Fg(self@.fg)));
        proof {
            ps = ps.push(Piece::Fg(self@.fg));
        }
        let color = bg(shell, self.bg);
        emit(out, color.as_str(), shell, Ghost(ps), Ghost(Piece::Bg(self@.bg)));
        proof {
            ps = ps.push(Piece::Bg(self@.bg));
        }
        emit_char(out, ' ', shell, Ghost(ps), Ghost(Piece::Space));
        assert(ps.push(Piece::Space) =~= done + seq![
            Piece::Fg(self@.fg),
            Piece::Bg(self@.bg),
            Piece::Space,
        ]);
    }

    /// Writes the text and the space after it.
    fn put_body(
        &self,
        out: &mut String,
        next: Option<&Segment>,
        shell: Shell,
        Ghost(done): Ghost<Seq<Piece>>,
    )
        requires
            old(out)@ == pieces_text(shell, done),
        ensures
            final(out)@ == pieces_text(shell, done + self@.body() + self@.gap(neighbour(next))),
    {
        let ghost mut ps = done;
        if self.bold {
            let on = sgr_code(shell, "1");
            emit(out, on.as_str(), shell, Ghost(ps), Ghost(Piece::BoldOn));
            proof {
                ps = ps.push(Piece::BoldOn);
            }
            emit(out, self.text.as_str(), shell, Ghost(ps), Ghost(Piece::Text(self@.text)));
            proof {
                ps = ps.push(Piece::Text(self@.text));
            }
            let off = sgr_code(shell, "22");
            emit(out, off.as_str(), shell, Ghost(ps), Ghost(Piece::BoldOff));
            assert(ps.push(Piece::BoldOff) =~= done + self@.body());
        } else {
            emit(out, self.text.as_str(), shell, Ghost(done), Ghost(Piece::Text(self@.text)));
            assert(done.push(Piece::Text(self@.text)) =~= done + self@.body());
        }
        proof {
            ps = done + self@.body();
        }
        let merged = match next {
            Some(n) => n.bg == self.bg,
            None => false,
        };
        if !self.no_space_after && !merged {
            emit_char(out, ' ', shell, Ghost(ps), Ghost(Piece::Space));
            assert(ps.push(Piece::Space) =~= ps + self@.gap(neighbour(next)));
        } else {
            assert(ps =~= ps + self@.gap(neighbour(next)));
        }
    }

    /// Writes the colours of a separator towards `n`, which has another
    /// background and is not conditional.
    fn put_separator_colors(
        &self,
        out: &mut String,
        n: &Segment,
        shell: Shell,
        Ghost(done): Ghost<Seq<Piece>>,
    )
        requires
            old(out)@ == pieces_text(shell, done),
        ensures
            final(out)@ == pieces_text(
                shell,
                done.push(Piece::Fg(self@.separator_fg(n@.bg))).push(Piece::Bg(n@.bg)),
            ),
    {
        let tint = if self.bg == 0 {
            n.bg
        } else {
            self.bg
        };
        let color = fg(shell, tint);
        emit(out, color.as_str(), shell, Ghost(done), Ghost(Piece::Fg(tint)));
        let color = bg(shell, n.bg);
        emit(
            out,
            color.as_str(),
            shell,
            Ghost(done.push(Piece::Fg(tint))),
            Ghost(Piece::Bg(n@.bg)),
        );
    }

    /// Writes the separator of the left-to-right direction.
    fn put_separator(
        &self,
        out: &mut String,
        next: Option<&Segment>,
        shell: Shell,
        Ghost(done): Ghost<Seq<Piece>>,
    )
        requires
            old(out)@ == pieces_text(shell, done),
        ensures
            final(out)@ == pieces_text(shell, done + self@.separator(neighbour(next))),
    {
        let ghost mut ps = done;
        match next {
            Some(n) => {
                if !n.conditional && n.bg != self.bg {
                    self.put_separator_colors(out, n, shell, Ghost(ps));
                    proof {
                        ps = ps.push(Piece::Fg(self@.separator_fg(n@.bg))).push(Piece::Bg(n@.bg));
                    }
                    emit_char(out, SEPARATOR, shell, Ghost(ps), Ghost(Piece::Separator));
                    proof {
                        ps = ps.push(Piece::Separator);
                    }
                }
            },
            None => {
                let color = fg(shell, self.bg);
                emit(out, color.as_str(), shell, Ghost(ps), Ghost(Piece::Fg(self@.bg)));
                proof {
                    ps = ps.push(Piece::Fg(self@.bg));
                }
                let code = reset(shell, false);
                emit(out, code.as_str(), shell, Ghost(ps), Ghost(Piece::ResetBg));
                proof {
                    ps = ps.push(Piece::ResetBg);
                }
                emit_char(out, SEPARATOR, shell, Ghost(ps), Ghost(Piece::Separator));
                proof {
                    ps = ps.push(Piece::Separator);
                }
                let code = reset(shell, true);
                emit(out, code.as_str(), shell, Ghost(ps), Ghost(Piece::ResetFg));
                proof {
                    ps = ps.push(Piece::ResetFg);
                }
            },
        }
        assert(ps =~= done + self@.separator(neighbour(next)));
    }

    /// Writes the separator of the right-to-left direction.
    fn put_separator_rtl(
        &self,
        out: &mut String,
        next: Option<&Segment>,
        shell: Shell,
        Ghost(done): Ghost<Seq<Piece>>,
    )
        requires
            old(out)@ == pieces_text(shell, done),
        ensures
            final(out)@ == pieces_text(shell, done + self@.separator_rtl(neighbour(next))),
    {
        let ghost mut ps = done;
        match next {
            Some(n) => {
                if !n.conditional && n.bg != self.bg {
                    self.put_separator_colors(out, n, shell, Ghost(ps));
                    proof {
                        ps = ps.push(Piece::Fg(self@.separator_fg(n@.bg))).push(Piece::Bg(n@.bg));
                    }
                    emit_char(out, SEPARATOR_RTL, shell, Ghost(ps), Ghost(Piece::SeparatorRtl));
                    proof {
                        ps = ps.push(Piece::SeparatorRtl);
                    }
                }
            },
            None => {
                let color = fg(shell, self.bg);
                emit(out, color.as_str(), shell, Ghost(ps), Ghost(Piece::Fg(self@.bg)));
                proof {
                    ps = ps.push(Piece::Fg(self@.bg));
                }
                emit_char(out, SEPARATOR_RTL, shell, Ghost(ps), Ghost(Piece::SeparatorRtl));
                proof {
                    ps = ps.push(Piece::SeparatorRtl);
                }
            },
        }
        assert(ps =~= done + self@.separator_rtl(neighbour(next)));
    }

    /// Writes both resets, the background first.
    fn put_resets(out: &mut String, shell: Shell, Ghost(done): Ghost<Seq<Piece>>)
        requires
            old(out)@ == pieces_text(shell, done),
        ensures
            final(out)@ == pieces_text(shell, done.push(Piece::ResetBg).push(Piece::ResetFg)),
    {
        let code = reset(shell, false);
        emit(out, code.as_str(), shell, Ghost(done), Ghost(Piece::ResetBg));
        let code = reset(shell, true);
        emit(out, code.as_str(), shell, Ghost(done.push(Piece::ResetBg)), Ghost(Piece::ResetFg));
    }

    /// Draws the segment for the left-to-right direction; `next` is the
    /// segment to its right, if there is one.
    pub fn print(&self, next: Option<&Segment>, shell: Shell, _theme: &Theme) -> (out: String)
        requires
            self@.escaped,
        ensures
            out@ == pieces_text(shell, self@.print_pieces(neighbour(next))),
    {
        let ghost v = self@;
        let ghost n = neighbour(next);
        let ghost nothing: Seq<Piece> = Seq::empty();
        let ghost opened = nothing.push(Piece::Text(v.before));
        let ghost second = opened + seq![Piece::Fg(v.fg), Piece::Bg(v.bg), Piece::Space];
        let ghost third = second + v.body() + v.gap(n);
        let ghost fourth = third + v.separator(n);
        let mut out = String::new();
        emit(&mut out, self.before, shell, Ghost(nothing), Ghost(Piece::Text(v.before)));
        self.put_colors(&mut out, shell, Ghost(opened));
        self.put_body(&mut out, next, shell, Ghost(second));
        self.put_separator(&mut out, next, shell, Ghost(third));
        emit(&mut out, self.after, shell, Ghost(fourth), Ghost(Piece::Text(v.after)));
        assert(fourth.push(Piece::Text(v.after)) =~= v.print_pieces(n));
        out
    }

    /// Draws the segment for the right-to-left direction; `next` is the
    /// segment to its left, if there is one.
    pub fn print_rtl(&self, next: Option<&Segment>, shell: Shell, _theme: &Theme) -> (out: String)
        requires
            self@.escaped,
        ensures
            out@ == pieces_text(shell, self@.print_rtl_pieces(neighbour(next))),
    {
        let ghost v = self@;
        let ghost n = neighbour(next);
        let ghost nothing: Seq<Piece> = Seq::empty();
        let ghost opened = nothing.push(Piece::Text(v.after));
        let ghost second = opened + v.separator_rtl(n);
        let ghost third = second + seq![Piece::Fg(v.fg), Piece::Bg(v.bg), Piece::Space];
        let ghost fourth = third + v.body() + v.gap(n);
        let ghost fifth = fourth.push(Piece::ResetBg).push(Piece::ResetFg);
        let mut out = String::new();
        emit(&mut out, self.after, shell, Ghost(nothing), Ghost(Piece::Text(v.after)));
        self.put_separator_rtl(&mut out, next, shell, Ghost(opened));
        self.put_colors(&mut out, shell, Ghost(second));
        self.put_body(&mut out, next, shell, Ghost(third));
        Segment::put_resets(&mut out, shell, Ghost(fourth));
        emit(&mut out, self.before, shell, Ghost(fifth), Ghost(Piece::Text(v.before)));
        assert(fifth.push(Piece::Text(v.before)) =~= v.print_rtl_pieces(n));
        out
    }
}

} // verus!
