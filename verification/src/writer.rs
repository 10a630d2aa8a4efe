//! The line assembly of the markdown renderer: styled text pieces gather into the current
//! line, which gets the prefix of the enclosing blocks (block quotes, list items, code
//! blocks) and is finished into the output, to be wrapped to the width when one is set.
use vstd::prelude::*;
use crate::layout::{
    border_line, display_width, nats, pad_table_cell, render_table_border, code_block_language, decimal, info_language, list_item_layout, list_lead, marker_width, math_highlight_pieces, math_line, pad_left,
    piece_views, prefix_piece, prefix_pieces, prefix_plan, spaces, try_render_list_lead,
    IndentLevel, PrefixPiece,
};
use crate::text::{chars_of, is_whitespace_char, skip_ws, lines_of, split_lines, str_views, string_from_chars, string_views, trimmed};
use crate::table::{finish_table_cell, restore_table_pipes, restored_pipes};
use crate::links::{
    displayed_path, has_prefix, is_file_url, is_local_link, is_local_path_like_link,
    normalized_path, opt_str, opt_string, render_local_link_target, should_render_link_destination,
    split_plain_target, url_parses, plain_target_shown, file_target_shown,
};

verus! {

/// A style layer; the layers of a piece apply in order, each over the ones before it.
#[derive(PartialEq, Eq, Structural, Clone, Copy, Debug)]
pub enum StyleKind {
    Heading(u8),
    Code,
    Emphasis,
    Strong,
    Strikethrough,
    OrderedListMarker,
    UnorderedListMarker,
    LinkText,
    LinkDestination,
    Blockquote,
    MarkdownText,
    Accent,
    CodeBlockBackground,
    TableBorder,
    TableHeader,
    TableBody,
    /// The style that the syntax highlighter gave the piece, by its number.
    Highlight(usize),
}

/// A run of text with its style layers.
pub struct Piece {
    pub text: String,
    pub style: Vec<StyleKind>,
}

/// A piece as text and style layers.
pub type PieceView = (Seq<char>, Seq<StyleKind>);

impl View for Piece {
    type V = PieceView;

    open spec fn view(&self) -> PieceView {
        (self.text@, self.style@)
    }
}

/// The views of a sequence of pieces.
pub open spec fn pieces_view(v: Seq<Piece>) -> Seq<PieceView> {
    v.map_values(|p: Piece| p@)
}

/// One level of block nesting: the pieces that indent its lines, the list marker it still
/// has to show, and whether it is a list item.
pub struct IndentFrame {
    pub prefix: Vec<Piece>,
    pub marker: Option<Vec<Piece>>,
    pub is_list: bool,
}

/// A frame as indent pieces, marker pieces and list flag.
pub type FrameView = (Seq<PieceView>, Option<Seq<PieceView>>, bool);

impl View for IndentFrame {
    type V = FrameView;

    open spec fn view(&self) -> FrameView {
        (
            pieces_view(self.prefix@),
            match self.marker {
                Some(m) => Some(pieces_view(m@)),
                None => None,
            },
            self.is_list,
        )
    }
}

/// The views of a sequence of frames.
pub open spec fn frames_view(v: Seq<IndentFrame>) -> Seq<FrameView> {
    v.map_values(|f: IndentFrame| f@)
}

/// The nesting levels of the frames, as the line prefix plan reads them.
pub open spec fn frame_levels(frames: Seq<FrameView>) -> Seq<IndentLevel> {
    frames.map_values(|f: FrameView| IndentLevel { has_marker: f.1 is Some, is_list: f.2 })
}

/// The pieces that one piece of the prefix plan stands for.
pub open spec fn plan_piece_text(frames: Seq<FrameView>, p: PrefixPiece) -> Seq<PieceView> {
    match p {
        PrefixPiece::Marker(i) => match frames[i as int].1 {
            Some(m) => m,
            None => Seq::empty(),
        },
        PrefixPiece::Indent(i) => frames[i as int].0,
    }
}

/// The pieces of a plan, one after another.
pub open spec fn plan_text(frames: Seq<FrameView>, plan: Seq<PrefixPiece>) -> Seq<PieceView>
    decreases plan.len(),
{
    if plan.len() == 0 {
        Seq::empty()
    } else {
        plan_text(frames, plan.drop_last()) + plan_piece_text(frames, plan.last())
    }
}

/// The prefix of a line inside the frames: the first line of a list item (`pending_marker`)
/// shows the item's marker.
pub open spec fn line_prefix(frames: Seq<FrameView>, pending_marker: bool) -> Seq<PieceView> {
    plan_text(frames, prefix_pieces(frame_levels(frames), pending_marker, frames.len() as int))
}

/// A copy of style layers.
pub fn copy_styles(v: &Vec<StyleKind>) -> (r: Vec<StyleKind>)
    ensures
        r@ == v@,
{
    let mut r: Vec<StyleKind> = Vec::new();
    let mut i: usize = 0;
    while i < v.len()
        invariant
            i <= v@.len(),
            r@ == v@.subrange(0, i as int),
        decreases v@.len() - i,
    {
        r.push(v[i]);
        i += 1;
        assert(r@ =~= v@.subrange(0, i as int));
    }
    assert(v@.subrange(0, v@.len() as int) =~= v@);
    r
}

/// A copy of a piece.
pub fn copy_piece(p: &Piece) -> (r: Piece)
    ensures
        r@ == p@,
{
    let chars = chars_of(p.text.as_str());
    Piece { text: string_from_chars(chars.as_slice()), style: copy_styles(&p.style) }
}

/// Appends copies of `src` to `dst`.
pub fn extend_pieces(dst: &mut Vec<Piece>, src: &Vec<Piece>)
    ensures
        pieces_view(final(dst)@) == pieces_view(old(dst)@) + pieces_view(src@),
{
    let ghost start = pieces_view(dst@);
    let mut i: usize = 0;
    while i < src.len()
        invariant
            i <= src@.len(),
            pieces_view(dst@) == start + pieces_view(src@.subrange(0, i as int)),
        decreases src@.len() - i,
    {
        let ghost prev = dst@;
        let p = copy_piece(&src[i]);
        assert(p@ == src@[i as int]@);
        dst.push(p);
        assert(dst@ == prev.push(p));
        assert(pieces_view(dst@) =~= pieces_view(prev).push(src@[i as int]@));
        assert(pieces_view(src@.subrange(0, i + 1)) =~= pieces_view(src@.subrange(0, i as int)).push(
            src@[i as int]@,
        ));
        i += 1;
        assert(pieces_view(dst@) =~= start + pieces_view(src@.subrange(0, i as int)));
    }
    assert(src@.subrange(0, src@.len() as int) =~= src@);
}

/// The nesting levels of frames.
fn levels_of(frames: &Vec<IndentFrame>) -> (r: Vec<IndentLevel>)
    ensures
        r@ == frame_levels(frames_view(frames@)),
{
    let mut r: Vec<IndentLevel> = Vec::new();
    let mut i: usize = 0;
    while i < frames.len()
        invariant
            i <= frames@.len(),
            r@ == frame_levels(frames_view(frames@)).subrange(0, i as int),
        decreases frames@.len() - i,
    {
        r.push(IndentLevel { has_marker: frames[i].marker.is_some(), is_list: frames[i].is_list });
        i += 1;
        assert(r@ =~= frame_levels(frames_view(frames@)).subrange(0, i as int));
    }
    assert(frame_levels(frames_view(frames@)).subrange(0, frames@.len() as int) =~= frame_levels(
        frames_view(frames@),
    ));
    r
}

pub proof fn lemma_prefix_pieces_in_range(levels: Seq<IndentLevel>, pending: bool, k: int)
    requires
        k <= levels.len(),
    ensures
        forall|j: int|
            0 <= j < prefix_pieces(levels, pending, k).len() ==> match #[trigger] prefix_pieces(
                levels,
                pending,
                k,
            )[j] {
                PrefixPiece::Marker(i) => i < k,
                PrefixPiece::Indent(i) => i < k,
            },
    decreases k,
{
    if k > 0 {
        lemma_prefix_pieces_in_range(levels, pending, k - 1);
        let prev = prefix_pieces(levels, pending, k - 1);
        match prefix_piece(levels, pending, k - 1) {
            Some(p) => {
                assert forall|j: int| 0 <= j < prev.push(p).len() implies match #[trigger] prev.push(
                    p,
                )[j] {
                    PrefixPiece::Marker(i) => i < k,
                    PrefixPiece::Indent(i) => i < k,
                } by {
                    if j < prev.len() {
                        assert(prev.push(p)[j] == prev[j]);
                    }
                }
            },
            None => {},
        }
    }
}

/// The prefix of a line inside `frames` (see [`line_prefix`]).
pub fn prefix_spans(frames: &Vec<IndentFrame>, pending_marker_line: bool) -> (r: Vec<Piece>)
    ensures
        pieces_view(r@) == line_prefix(frames_view(frames@), pending_marker_line),
{
    let levels = levels_of(frames);
    let plan = prefix_plan(levels.as_slice(), pending_marker_line);
    let ghost fv = frames_view(frames@);
    proof {
        lemma_prefix_pieces_in_range(levels@, pending_marker_line, levels@.len() as int);
    }
    let mut out: Vec<Piece> = Vec::new();
    let mut k: usize = 0;
    while k < plan.len()
        invariant
            k <= plan@.len(),
            fv == frames_view(frames@),
            levels@.len() == frames@.len(),
            plan@ == prefix_pieces(levels@, pending_marker_line, levels@.len() as int),
            forall|j: int|
                0 <= j < plan@.len() ==> match #[trigger] plan@[j] {
                    PrefixPiece::Marker(i) => i < frames@.len(),
                    PrefixPiece::Indent(i) => i < frames@.len(),
                },
            pieces_view(out@) == plan_text(fv, plan@.subrange(0, k as int)),
        decreases plan@.len() - k,
    {
        let ghost before = pieces_view(out@);
        match plan[k] {
            PrefixPiece::Marker(i) => {
                if let Some(marker) = &frames[i].marker {
                    extend_pieces(&mut out, marker);
                }
            },
            PrefixPiece::Indent(i) => {
                extend_pieces(&mut out, &frames[i].prefix);
            },
        }
        proof {
            let sub = plan@.subrange(0, k + 1);
            assert(sub.drop_last() =~= plan@.subrange(0, k as int));
            assert(sub.last() == plan@[k as int]);
            assert(pieces_view(out@) =~= before + plan_piece_text(fv, plan@[k as int]));
        }
        k += 1;
    }
    assert(plan@.subrange(0, plan@.len() as int) =~= plan@);
    assert(levels@ == frame_levels(fv));
    out
}

/// A finished line of output.
pub enum OutputLine {
    /// A line to show as it is: its pieces and its line style.
    Plain(Vec<Piece>, Vec<StyleKind>),
    /// A line to wrap to a width: its pieces, its line style, the pieces that indent its
    /// first and its following lines, and the width.
    Wrap(Vec<Piece>, Vec<StyleKind>, Vec<Piece>, Vec<Piece>, usize),
    /// A table, as its rows (whether a header row, and the cell texts), laid out by the
    /// caller.
    Table(Vec<(bool, Vec<String>)>),
}

/// A finished line as views.
pub ghost enum OutputView {
    Plain(Seq<PieceView>, Seq<StyleKind>),
    Wrap(Seq<PieceView>, Seq<StyleKind>, Seq<PieceView>, Seq<PieceView>, usize),
    Table(Seq<(bool, Seq<Seq<char>>)>),
}

/// The view of a table row.
pub open spec fn row_view(r: (bool, Vec<String>)) -> (bool, Seq<Seq<char>>) {
    (r.0, crate::text::string_views(r.1@))
}

impl View for OutputLine {
    type V = OutputView;

    open spec fn view(&self) -> OutputView {
        match self {
            OutputLine::Plain(p, st) => OutputView::Plain(pieces_view(p@), st@),
            OutputLine::Wrap(p, st, a, b, w) => OutputView::Wrap(
                pieces_view(p@),
                st@,
                pieces_view(a@),
                pieces_view(b@),
                *w,
            ),
            OutputLine::Table(rows) => OutputView::Table(rows@.map_values(|r: (bool, Vec<String>)| row_view(r))),
        }
    }
}

/// The views of output lines.
pub open spec fn outputs_view(v: Seq<OutputLine>) -> Seq<OutputView> {
    v.map_values(|l: OutputLine| l@)
}

/// The line being assembled: its pieces and style, the pieces that indent its first and its
/// following lines, and whether it belongs to a code block (code is never wrapped).
pub struct CurrentLine {
    pub content: Vec<Piece>,
    pub style: Vec<StyleKind>,
    pub initial_indent: Vec<Piece>,
    pub subsequent_indent: Vec<Piece>,
    pub in_code_block: bool,
}

/// The line being assembled, as views.
pub ghost struct CurrentView {
    pub content: Seq<PieceView>,
    pub style: Seq<StyleKind>,
    pub initial_indent: Seq<PieceView>,
    pub subsequent_indent: Seq<PieceView>,
    pub in_code_block: bool,
}

impl View for CurrentLine {
    type V = CurrentView;

    open spec fn view(&self) -> CurrentView {
        CurrentView {
            content: pieces_view(self.content@),
            style: self.style@,
            initial_indent: pieces_view(self.initial_indent@),
            subsequent_indent: pieces_view(self.subsequent_indent@),
            in_code_block: self.in_code_block,
        }
    }
}

/// The assembled lines and the state that decides how the next ones look.
pub struct LineAssembler {
    pub output: Vec<OutputLine>,
    pub current: Option<CurrentLine>,
    pub indent_stack: Vec<IndentFrame>,
    pub wrap_width: Option<usize>,
    pub pending_marker_line: bool,
    pub in_code_block: bool,
    pub line_ends_with_local_link_target: bool,
}

/// The assembler as views.
pub ghost struct AssemblerView {
    pub output: Seq<OutputView>,
    pub current: Option<CurrentView>,
    pub frames: Seq<FrameView>,
    pub wrap_width: Option<usize>,
    pub pending_marker_line: bool,
    pub in_code_block: bool,
    pub ends_with_link: bool,
}

impl View for LineAssembler {
    type V = AssemblerView;

    open spec fn view(&self) -> AssemblerView {
        AssemblerView {
            output: outputs_view(self.output@),
            current: match self.current {
                Some(c) => Some(c@),
                None => None,
            },
            frames: frames_view(self.indent_stack@),
            wrap_width: self.wrap_width,
            pending_marker_line: self.pending_marker_line,
            in_code_block: self.in_code_block,
            ends_with_link: self.line_ends_with_local_link_target,
        }
    }
}

/// How a finished line is output: wrapped to the width when one is set and the line is not
/// code, else with its first-line indent in front.
pub open spec fn finished_line(c: CurrentView, wrap_width: Option<usize>) -> OutputView {
    match wrap_width {
        Some(w) if !c.in_code_block => OutputView::Wrap(
            c.content,
            c.style,
            c.initial_indent,
            c.subsequent_indent,
            w,
        ),
        _ => OutputView::Plain(c.initial_indent + c.content, c.style),
    }
}

/// The assembler after the current line, if any, is finished.
pub open spec fn flushed(v: AssemblerView) -> AssemblerView {
    match v.current {
        Some(c) => AssemblerView {
            output: v.output.push(finished_line(c, v.wrap_width)),
            current: None,
            ends_with_link: false,
            ..v
        },
        None => v,
    }
}

/// Whether some frame indents with a `>` (a block quote).
pub open spec fn in_block_quote(frames: Seq<FrameView>) -> bool {
    exists|i: int, j: int|
        0 <= i < frames.len() && 0 <= j < frames[i].0.len() && #[trigger] frames[i].0[j].0.contains('>')
}

/// The assembler after a new line with `content` and `style` is started: the line before it
/// is finished, and the new one gets the prefix of the frames (showing a pending list
/// marker) and the code block background, or the block quote style inside a quote.
pub open spec fn line_pushed(v: AssemblerView, content: Seq<PieceView>, style: Seq<StyleKind>) -> AssemblerView {
    let f = flushed(v);
    let line_style = if f.in_code_block {
        style.push(StyleKind::CodeBlockBackground)
    } else if in_block_quote(f.frames) {
        seq![StyleKind::Blockquote]
    } else {
        style
    };
    AssemblerView {
        current: Some(
            CurrentView {
                content,
                style: line_style,
                initial_indent: line_prefix(f.frames, f.pending_marker_line),
                subsequent_indent: line_prefix(f.frames, false),
                in_code_block: f.in_code_block,
            },
        ),
        ends_with_link: false,
        pending_marker_line: false,
        ..f
    }
}

/// The assembler after `piece` is added to the current line (which is started when there
/// is none).
pub open spec fn span_pushed(v: AssemblerView, piece: PieceView) -> AssemblerView {
    match v.current {
        Some(c) => AssemblerView {
            current: Some(CurrentView { content: c.content.push(piece), ..c }),
            ..v
        },
        None => line_pushed(v, seq![piece], Seq::empty()),
    }
}

/// The assembler after a blank line: outside lists' other blocks it is a bare empty line;
/// otherwise an empty line with the prefix of the frames.
pub open spec fn blank_pushed(v: AssemblerView) -> AssemblerView {
    let f = flushed(v);
    if forall|i: int| 0 <= i < f.frames.len() ==> #[trigger] f.frames[i].2 {
        AssemblerView { output: f.output.push(OutputView::Plain(Seq::empty(), Seq::empty())), ..f }
    } else {
        flushed(line_pushed(f, Seq::empty(), Seq::empty()))
    }
}

/// Whether `s` holds `c`.
fn text_contains(s: &String, c: char) -> (r: bool)
    ensures
        r == s@.contains(c),
{
    let chars = chars_of(s.as_str());
    let mut i: usize = 0;
    while i < chars.len()
        invariant
            i <= chars@.len(),
            chars@ == s@,
            forall|k: int| 0 <= k < i ==> chars@[k] != c,
        decreases chars@.len() - i,
    {
        if chars[i] == c {
            return true;
        }
        i += 1;
    }
    false
}

/// Whether some frame indents with a `>` (see [`in_block_quote`]).
fn block_quote_active(frames: &Vec<IndentFrame>) -> (r: bool)
    ensures
        r == in_block_quote(frames_view(frames@)),
{
    let ghost fv = frames_view(frames@);
    let mut i: usize = 0;
    while i < frames.len()
        invariant
            i <= frames@.len(),
            fv == frames_view(frames@),
            forall|a: int, b: int|
                0 <= a < i && 0 <= b < fv[a].0.len() ==> !(#[trigger] fv[a].0[b].0.contains('>')),
        decreases frames@.len() - i,
    {
        let prefix = &frames[i].prefix;
        let mut j: usize = 0;
        while j < prefix.len()
            invariant
                i < frames@.len(),
                j <= prefix@.len(),
                prefix@ == frames@[i as int].prefix@,
                fv == frames_view(frames@),
                forall|a: int, b: int|
                    0 <= a < i && 0 <= b < fv[a].0.len() ==> !(#[trigger] fv[a].0[b].0.contains('>')),
                forall|b: int| 0 <= b < j ==> !(#[trigger] fv[i as int].0[b].0.contains('>')),
            decreases prefix@.len() - j,
        {
            if text_contains(&prefix[j].text, '>') {
                assert(fv[i as int].0[j as int].0.contains('>'));
                return true;
            }
            j += 1;
        }
        i += 1;
    }
    false
}

impl LineAssembler {
    /// An assembler with no lines, outside any block.
    pub fn new(wrap_width: Option<usize>) -> (r: Self)
        ensures
            r@ == (AssemblerView {
                output: Seq::empty(),
                current: None,
                frames: Seq::empty(),
                wrap_width,
                pending_marker_line: false,
                in_code_block: false,
                ends_with_link: false,
            }),
    {
        let r = LineAssembler {
            output: Vec::new(),
            current: None,
            indent_stack: Vec::new(),
            wrap_width,
            pending_marker_line: false,
            in_code_block: false,
            line_ends_with_local_link_target: false,
        };
        assert(outputs_view(r.output@) =~= Seq::<OutputView>::empty());
        assert(frames_view(r.indent_stack@) =~= Seq::<FrameView>::empty());
        r
    }

    /// Finishes the current line, if any, into the output (see [`flushed`]).
    pub fn flush_current_line(&mut self)
        ensures
            final(self)@ == flushed(old(self)@),
    {
        let mut cur: Option<CurrentLine> = None;
        std::mem::swap(&mut cur, &mut self.current);
        match cur {
            Some(c) => {
                let ghost cv = c@;
                let line = match self.wrap_width {
                    Some(w) if !c.in_code_block => OutputLine::Wrap(
                        c.content,
                        c.style,
                        c.initial_indent,
                        c.subsequent_indent,
                        w,
                    ),
                    _ => {
                        let mut pieces = c.initial_indent;
                        extend_pieces(&mut pieces, &c.content);
                        OutputLine::Plain(pieces, c.style)
                    },
                };
                assert(line@ == finished_line(cv, self.wrap_width));
                let ghost before = self.output@;
                self.output.push(line);
                assert(outputs_view(self.output@) =~= outputs_view(before).push(line@));
                self.line_ends_with_local_link_target = false;
            },
            None => {},
        }
    }

    /// Starts a new line with `content` and `style` (see [`line_pushed`]).
    pub fn push_line(&mut self, content: Vec<Piece>, style: Vec<StyleKind>)
        ensures
            final(self)@ == line_pushed(old(self)@, pieces_view(content@), style@),
    {
        self.flush_current_line();
        let ghost f = self@;
        let line_style = if self.in_code_block {
            let mut st = style;
            st.push(StyleKind::CodeBlockBackground);
            st
        } else if block_quote_active(&self.indent_stack) {
            vec![StyleKind::Blockquote]
        } else {
            style
        };
        let initial_indent = prefix_spans(&self.indent_stack, self.pending_marker_line);
        let subsequent_indent = prefix_spans(&self.indent_stack, false);
        let ghost cv = CurrentView {
            content: pieces_view(content@),
            style: line_style@,
            initial_indent: pieces_view(initial_indent@),
            subsequent_indent: pieces_view(subsequent_indent@),
            in_code_block: self.in_code_block,
        };
        self.current = Some(
            CurrentLine {
                content,
                style: line_style,
                initial_indent,
                subsequent_indent,
                in_code_block: self.in_code_block,
            },
        );
        self.line_ends_with_local_link_target = false;
        self.pending_marker_line = false;
        assert(line_style@ == (if f.in_code_block {
            style@.push(StyleKind::CodeBlockBackground)
        } else if in_block_quote(f.frames) {
            seq![StyleKind::Blockquote]
        } else {
            style@
        }));
    }

    /// Adds `piece` to the current line, starting one when there is none (see
    /// [`span_pushed`]).
    pub fn push_span(&mut self, piece: Piece)
        ensures
            final(self)@ == span_pushed(old(self)@, piece@),
    {
        let mut cur: Option<CurrentLine> = None;
        std::mem::swap(&mut cur, &mut self.current);
        match cur {
            Some(mut c) => {
                let ghost before = c.content@;
                c.content.push(piece);
                assert(pieces_view(c.content@) =~= pieces_view(before).push(piece@));
                self.current = Some(c);
            },
            None => {
                let ghost pv = piece@;
                let content = vec![piece];
                assert(pieces_view(content@) =~= seq![pv]);
                self.push_line(content, Vec::new());
            },
        }
    }

    /// Adds a blank line (see [`blank_pushed`]).
    pub fn push_blank_line(&mut self)
        ensures
            final(self)@ == blank_pushed(old(self)@),
    {
        self.flush_current_line();
        let ghost f = self@;
        let mut all_lists = true;
        let mut i: usize = 0;
        while i < self.indent_stack.len()
            invariant
                i <= self.indent_stack@.len(),
                f == self@,
                all_lists == forall|k: int| 0 <= k < i ==> #[trigger] f.frames[k].2,
            decreases self.indent_stack@.len() - i,
        {
            assert(f.frames[i as int].2 == self.indent_stack@[i as int].is_list);
            if !self.indent_stack[i].is_list {
                all_lists = false;
            }
            i += 1;
        }
        if all_lists {
            let ghost before = self.output@;
            let line = OutputLine::Plain(Vec::new(), Vec::new());
            assert(pieces_view(Seq::<Piece>::empty()) =~= Seq::<PieceView>::empty());
            assert(line@ == OutputView::Plain(Seq::empty(), Seq::empty()));
            self.output.push(line);
            assert(outputs_view(self.output@) =~= outputs_view(before).push(line@));
        } else {
            self.push_line(Vec::new(), Vec::new());
            self.flush_current_line();
        }
    }
}

/// The rows of a table being read, the row and the cell being filled, and whether the
/// rows are header rows.
pub struct TableBuilder {
    pub rows: Vec<(bool, Vec<String>)>,
    pub current_row: Vec<String>,
    pub current_cell: String,
    pub in_header: bool,
    pub current_row_is_header: bool,
}

/// A table being read, as views.
pub ghost struct TableView {
    pub rows: Seq<(bool, Seq<Seq<char>>)>,
    pub row: Seq<Seq<char>>,
    pub cell: Seq<char>,
    pub in_header: bool,
    pub row_is_header: bool,
}

impl View for TableBuilder {
    type V = TableView;

    open spec fn view(&self) -> TableView {
        TableView {
            rows: self.rows@.map_values(|r: (bool, Vec<String>)| row_view(r)),
            row: string_views(self.current_row@),
            cell: self.current_cell@,
            in_header: self.in_header,
            row_is_header: self.current_row_is_header,
        }
    }
}

/// The table after its current row, when it has cells, is added to its rows.
pub open spec fn row_finished(t: TableView) -> TableView {
    if t.row.len() == 0 {
        t
    } else {
        TableView { rows: t.rows.push((t.row_is_header, t.row)), row: Seq::empty(), ..t }
    }
}

/// The table after its current cell is finished: trimmed, with hidden pipes put back.
pub open spec fn cell_finished(t: TableView) -> TableView {
    TableView { row: t.row.push(restored_pipes(trimmed(t.cell))), cell: Seq::empty(), ..t }
}

impl TableBuilder {
    /// A table with no rows yet.
    pub fn new() -> (r: Self)
        ensures
            r@ == (TableView {
                rows: Seq::empty(),
                row: Seq::empty(),
                cell: Seq::empty(),
                in_header: false,
                row_is_header: false,
            }),
    {
        let r = TableBuilder {
            rows: Vec::new(),
            current_row: Vec::new(),
            current_cell: String::new(),
            in_header: false,
            current_row_is_header: false,
        };
        assert(r@.rows =~= Seq::<(bool, Seq<Seq<char>>)>::empty());
        assert(r@.row =~= Seq::<Seq<char>>::empty());
        r
    }

    /// Adds the current row to the rows when it has cells.
    pub fn finish_table_row(&mut self)
        ensures
            final(self)@ == row_finished(old(self)@),
    {
        if self.current_row.len() == 0 {
            return;
        }
        let mut row: Vec<String> = Vec::new();
        std::mem::swap(&mut row, &mut self.current_row);
        let ghost before = self.rows@;
        let entry = (self.current_row_is_header, row);
        self.rows.push(entry);
        assert(self@.rows =~= before.map_values(|r: (bool, Vec<String>)| row_view(r)).push(
            row_view(entry),
        ));
        assert(string_views(self.current_row@) =~= Seq::<Seq<char>>::empty());
    }

    /// Starts the header: a new header row with an empty cell.
    pub fn start_table_head(&mut self)
        ensures
            final(self)@ == (TableView {
                row: Seq::empty(),
                cell: Seq::empty(),
                in_header: true,
                row_is_header: true,
                ..old(self)@
            }),
    {
        self.current_row = Vec::new();
        self.current_cell = String::new();
        self.in_header = true;
        self.current_row_is_header = true;
        assert(string_views(self.current_row@) =~= Seq::<Seq<char>>::empty());
    }

    /// Ends the header: its row is finished and the rows after it are body rows.
    pub fn end_table_head(&mut self)
        ensures
            final(self)@ == (TableView {
                in_header: false,
                row_is_header: false,
                ..row_finished(old(self)@)
            }),
    {
        self.finish_table_row();
        self.in_header = false;
        self.current_row_is_header = false;
    }

    /// Starts a row, a header row while in the header.
    pub fn start_table_row(&mut self)
        ensures
            final(self)@ == (TableView {
                row: Seq::empty(),
                row_is_header: old(self)@.in_header,
                ..old(self)@
            }),
    {
        self.current_row = Vec::new();
        self.current_row_is_header = self.in_header;
        assert(string_views(self.current_row@) =~= Seq::<Seq<char>>::empty());
    }

    /// Ends a row (see [`row_finished`]).
    pub fn end_table_row(&mut self)
        ensures
            final(self)@ == row_finished(old(self)@),
    {
        self.finish_table_row();
    }

    /// Starts a cell.
    pub fn start_table_cell(&mut self)
        ensures
            final(self)@ == (TableView { cell: Seq::empty(), ..old(self)@ }),
    {
        self.current_cell = String::new();
    }

    /// Ends a cell (see [`cell_finished`]).
    pub fn end_table_cell(&mut self)
        ensures
            final(self)@ == cell_finished(old(self)@),
    {
        let cell = finish_table_cell(self.current_cell.as_str());
        let ghost before = self.current_row@;
        self.current_row.push(cell);
        assert(string_views(self.current_row@) =~= string_views(before).push(cell@));
        self.current_cell = String::new();
    }

    /// Adds text to the current cell, with hidden pipes put back.
    pub fn push_table_text(&mut self, text: &str)
        ensures
            final(self)@ == (TableView { cell: old(self)@.cell + restored_pipes(text@), ..old(self)@ }),
    {
        let restored = restore_table_pipes(text);
        self.current_cell.append(restored.as_str());
    }
}

/// A link being read: its destination, whether the destination is shown after the label,
/// and, for a local file link, the text shown in place of the label.
pub struct LinkState {
    pub destination: String,
    pub show_destination: bool,
    pub local_target_display: Option<String>,
}

/// A link being read, as views.
pub ghost struct LinkView {
    pub destination: Seq<char>,
    pub show_destination: bool,
    pub local_display: Option<Seq<char>>,
}

impl View for LinkState {
    type V = LinkView;

    open spec fn view(&self) -> LinkView {
        LinkView {
            destination: self.destination@,
            show_destination: self.show_destination,
            local_display: crate::links::opt_string(self.local_target_display),
        }
    }
}

/// The markdown renderer's state: the lines assembled so far and what it knows of the
/// blocks and inline spans it is inside.
pub struct MarkdownWriter {
    pub lines: LineAssembler,
    pub inline_styles: Vec<Vec<StyleKind>>,
    pub list_indices: Vec<Option<u64>>,
    pub link: Option<LinkState>,
    pub needs_newline: bool,
    pub in_paragraph: bool,
    pub code_block_lang: Option<String>,
    pub code_block_buffer: String,
    pub cwd: Option<String>,
    pub pending_local_link_soft_break: bool,
    pub pending_list_lead_highlight: bool,
    pub table_state: Option<TableBuilder>,
    pub in_math_block: bool,
}

/// The renderer's state as views.
pub ghost struct WriterView {
    pub lines: AssemblerView,
    pub inline_styles: Seq<Seq<StyleKind>>,
    pub list_indices: Seq<Option<u64>>,
    pub link: Option<LinkView>,
    pub needs_newline: bool,
    pub in_paragraph: bool,
    pub code_lang: Option<Seq<char>>,
    pub code_buffer: Seq<char>,
    pub cwd: Option<Seq<char>>,
    pub pending_soft_break: bool,
    pub pending_lead: bool,
    pub table: Option<TableView>,
    pub in_math_block: bool,
}

/// The views of style stacks.
pub open spec fn styles_view(v: Seq<Vec<StyleKind>>) -> Seq<Seq<StyleKind>> {
    v.map_values(|s: Vec<StyleKind>| s@)
}

impl View for MarkdownWriter {
    type V = WriterView;

    open spec fn view(&self) -> WriterView {
        WriterView {
            lines: self.lines@,
            inline_styles: styles_view(self.inline_styles@),
            list_indices: self.list_indices@,
            link: match self.link {
                Some(l) => Some(l@),
                None => None,
            },
            needs_newline: self.needs_newline,
            in_paragraph: self.in_paragraph,
            code_lang: crate::links::opt_string(self.code_block_lang),
            code_buffer: self.code_block_buffer@,
            cwd: crate::links::opt_string(self.cwd),
            pending_soft_break: self.pending_local_link_soft_break,
            pending_lead: self.pending_list_lead_highlight,
            table: match self.table_state {
                Some(t) => Some(t@),
                None => None,
            },
            in_math_block: self.in_math_block,
        }
    }
}

/// The state after a new line is started (see [`line_pushed`]).
pub open spec fn new_line(v: WriterView) -> WriterView {
    WriterView { lines: line_pushed(v.lines, Seq::empty(), Seq::empty()), ..v }
}

/// The state after a piece is added to the current line (see [`span_pushed`]).
pub open spec fn with_span(v: WriterView, piece: PieceView) -> WriterView {
    WriterView { lines: span_pushed(v.lines, piece), ..v }
}

/// The state after a blank line (see [`blank_pushed`]).
pub open spec fn with_blank(v: WriterView) -> WriterView {
    WriterView { lines: blank_pushed(v.lines), ..v }
}

/// The style that text takes: the innermost inline style, or the markdown text style.
pub open spec fn base_style(v: WriterView) -> Seq<StyleKind> {
    if v.inline_styles.len() > 0 {
        v.inline_styles.last()
    } else {
        seq![StyleKind::MarkdownText]
    }
}

/// The state after an inline style is entered: it applies over the one it is inside.
pub open spec fn style_pushed(v: WriterView, style: StyleKind) -> WriterView {
    let current = if v.inline_styles.len() > 0 {
        v.inline_styles.last()
    } else {
        Seq::empty()
    };
    WriterView { inline_styles: v.inline_styles.push(current.push(style)), ..v }
}

/// The state after an inline style is left.
pub open spec fn style_popped(v: WriterView) -> WriterView {
    if v.inline_styles.len() > 0 {
        WriterView { inline_styles: v.inline_styles.drop_last(), ..v }
    } else {
        v
    }
}

/// The text of a heading's marker: one `#` per level, then a space.
pub open spec fn heading_marker(level: u8) -> Seq<char> {
    Seq::new(level as nat, |_i: int| '#').push(' ')
}

/// A frame as views.
pub open spec fn frame_view(prefix: Seq<PieceView>, marker: Option<Seq<PieceView>>, is_list: bool) -> FrameView {
    (prefix, marker, is_list)
}

/// The state after a frame is entered.
pub open spec fn frame_pushed(v: WriterView, f: FrameView) -> WriterView {
    WriterView { lines: AssemblerView { frames: v.lines.frames.push(f), ..v.lines }, ..v }
}

/// The state after the innermost frame is left.
pub open spec fn frame_popped(v: WriterView) -> WriterView {
    if v.lines.frames.len() > 0 {
        WriterView { lines: AssemblerView { frames: v.lines.frames.drop_last(), ..v.lines }, ..v }
    } else {
        v
    }
}

impl MarkdownWriter {
    /// A renderer with no output, wrapping to `wrap_width` when set and shortening local
    /// links against `cwd`.
    pub fn new(wrap_width: Option<usize>, cwd: Option<String>) -> (r: Self)
        ensures
            r@.lines == LineAssembler::new_view(wrap_width),
            r@.inline_styles == Seq::<Seq<StyleKind>>::empty(),
            r@.list_indices == Seq::<Option<u64>>::empty(),
            r@.link is None,
            !r@.needs_newline,
            !r@.in_paragraph,
            r@.code_lang is None,
            r@.code_buffer == Seq::<char>::empty(),
            r@.cwd == crate::links::opt_string(cwd),
            !r@.pending_soft_break,
            !r@.pending_lead,
            r@.table is None,
            !r@.in_math_block,
    {
        let r = MarkdownWriter {
            lines: LineAssembler::new(wrap_width),
            inline_styles: Vec::new(),
            list_indices: Vec::new(),
            link: None,
            needs_newline: false,
            in_paragraph: false,
            code_block_lang: None,
            code_block_buffer: String::new(),
            cwd,
            pending_local_link_soft_break: false,
            pending_list_lead_highlight: false,
            table_state: None,
            in_math_block: false,
        };
        assert(styles_view(r.inline_styles@) =~= Seq::<Seq<StyleKind>>::empty());
        r
    }

    fn push_blank(&mut self)
        ensures
            final(self)@ == with_blank(old(self)@),
    {
        self.lines.push_blank_line();
    }

    fn new_line(&mut self)
        ensures
            final(self)@ == new_line(old(self)@),
    {
        assert(pieces_view(Seq::<Piece>::empty()) =~= Seq::<PieceView>::empty());
        self.lines.push_line(Vec::new(), Vec::new());
    }

    fn push_span(&mut self, text: String, style: Vec<StyleKind>)
        ensures
            final(self)@ == with_span(old(self)@, (text@, style@)),
    {
        self.lines.push_span(Piece { text, style });
    }

    /// The style that text takes (see [`base_style`]).
    pub fn base_inline_style(&self) -> (r: Vec<StyleKind>)
        ensures
            r@ == base_style(self@),
    {
        match self.inline_styles.last() {
            Some(s) => copy_styles(s),
            None => vec![StyleKind::MarkdownText],
        }
    }

    /// Enters an inline style (see [`style_pushed`]).
    pub fn push_inline_style(&mut self, style: StyleKind)
        ensures
            final(self)@ == style_pushed(old(self)@, style),
    {
        let mut merged = match self.inline_styles.last() {
            Some(s) => copy_styles(s),
            None => Vec::new(),
        };
        merged.push(style);
        let ghost before = self.inline_styles@;
        let ghost m = merged@;
        self.inline_styles.push(merged);
        assert(styles_view(self.inline_styles@) =~= styles_view(before).push(m));
    }

    /// Leaves an inline style (see [`style_popped`]).
    pub fn pop_inline_style(&mut self)
        ensures
            final(self)@ == style_popped(old(self)@),
    {
        let ghost before = self.inline_styles@;
        if self.inline_styles.len() > 0 {
            self.inline_styles.pop();
            assert(styles_view(self.inline_styles@) =~= styles_view(before).drop_last());
        }
    }

    fn push_frame(&mut self, prefix: Vec<Piece>, marker: Option<Vec<Piece>>, is_list: bool)
        ensures
            final(self)@ == frame_pushed(
                old(self)@,
                frame_view(
                    pieces_view(prefix@),
                    match marker {
                        Some(m) => Some(pieces_view(m@)),
                        None => None,
                    },
                    is_list,
                ),
            ),
    {
        let frame = IndentFrame { prefix, marker, is_list };
        let ghost before = self.lines.indent_stack@;
        self.lines.indent_stack.push(frame);
        assert(frames_view(self.lines.indent_stack@) =~= frames_view(before).push(frame@));
    }

    fn pop_frame(&mut self)
        ensures
            final(self)@ == frame_popped(old(self)@),
    {
        let ghost before = self.lines.indent_stack@;
        if self.lines.indent_stack.len() > 0 {
            self.lines.indent_stack.pop();
            assert(frames_view(self.lines.indent_stack@) =~= frames_view(before).drop_last());
        }
    }
}

impl LineAssembler {
    /// The view of a new assembler.
    pub open spec fn new_view(wrap_width: Option<usize>) -> AssemblerView {
        AssemblerView {
            output: Seq::empty(),
            current: None,
            frames: Seq::empty(),
            wrap_width,
            pending_marker_line: false,
            in_code_block: false,
            ends_with_link: false,
        }
    }
}

/// The state after a paragraph starts: a blank line first when one is due, then a new line.
pub open spec fn paragraph_started(v: WriterView) -> WriterView {
    let v1 = if v.needs_newline {
        with_blank(v)
    } else {
        v
    };
    WriterView { needs_newline: false, in_paragraph: true, ..new_line(v1) }
}

/// The state after a paragraph ends.
pub open spec fn paragraph_ended(v: WriterView) -> WriterView {
    WriterView {
        lines: AssemblerView { pending_marker_line: false, ..v.lines },
        needs_newline: true,
        in_paragraph: false,
        pending_lead: false,
        ..v
    }
}

/// The state after a heading of `level` starts: a line with its `#` marker, and the
/// heading style over the text that follows.
pub open spec fn heading_started(v: WriterView, level: u8) -> WriterView {
    let v1 = if v.needs_newline {
        WriterView { needs_newline: false, ..new_line(v) }
    } else {
        v
    };
    let v2 = WriterView {
        lines: line_pushed(
            v1.lines,
            seq![(heading_marker(level), seq![StyleKind::Heading(level)])],
            Seq::empty(),
        ),
        ..v1
    };
    WriterView { needs_newline: false, ..style_pushed(v2, StyleKind::Heading(level)) }
}

/// The state after a block quote starts: lines inside it are prefixed with `> `.
pub open spec fn block_quote_started(v: WriterView) -> WriterView {
    let v1 = if v.needs_newline {
        WriterView { needs_newline: false, ..with_blank(v) }
    } else {
        v
    };
    frame_pushed(v1, frame_view(seq![(seq!['>', ' '], Seq::empty())], None, false))
}

/// The state after a list starts at `index` (`None` for a bulleted list).
pub open spec fn list_started(v: WriterView, index: Option<u64>) -> WriterView {
    let v1 = if v.list_indices.len() == 0 && v.needs_newline {
        new_line(v)
    } else {
        v
    };
    WriterView { list_indices: v1.list_indices.push(index), ..v1 }
}

/// The state after a list ends.
pub open spec fn list_ended(v: WriterView) -> WriterView {
    WriterView {
        list_indices: if v.list_indices.len() > 0 {
            v.list_indices.drop_last()
        } else {
            v.list_indices
        },
        needs_newline: true,
        ..v
    }
}

/// The marker of an item of a list at nesting `depth` (see [`list_item_layout`]).
pub open spec fn item_marker(depth: nat, index: Option<u64>) -> Seq<char> {
    let w = marker_width(depth);
    match index {
        None => spaces((w - 1) as nat) + seq!['-', ' '],
        Some(i) => pad_left(decimal(i as nat), w as nat) + seq!['.', ' '],
    }
}

/// The indent of the continuation lines of such an item.
pub open spec fn item_indent(depth: nat, index: Option<u64>) -> nat {
    let w = marker_width(depth);
    match index {
        None => (w + 1) as nat,
        Some(_) => (w + 2) as nat,
    }
}

/// The state after an item of the innermost list starts: its marker is pending for its
/// first line, its continuation lines are indented past the marker, and a numbered list
/// counts on.
pub open spec fn item_started(v: WriterView) -> WriterView {
    let depth = v.list_indices.len();
    let index = v.list_indices.last();
    let style = if index is Some {
        StyleKind::OrderedListMarker
    } else {
        StyleKind::UnorderedListMarker
    };
    let v1 = WriterView {
        lines: AssemblerView { pending_marker_line: true, ..v.lines },
        pending_lead: true,
        list_indices: v.list_indices.update(
            depth - 1,
            match index {
                Some(i) => Some((i + 1) as u64),
                None => None,
            },
        ),
        needs_newline: false,
        ..v
    };
    frame_pushed(
        v1,
        frame_view(
            seq![(spaces(item_indent(depth, index)), Seq::empty())],
            Some(seq![(item_marker(depth, index), seq![style])]),
            true,
        ),
    )
}

/// The state after a list item ends.
pub open spec fn item_ended(v: WriterView) -> WriterView {
    let v1 = frame_popped(v);
    WriterView {
        lines: AssemblerView { pending_marker_line: false, ..v1.lines },
        pending_lead: false,
        ..v1
    }
}

/// The state with its table set to `t`.
pub open spec fn in_table(v: WriterView, t: Option<TableView>) -> WriterView {
    WriterView { table: t, ..v }
}

/// The state after text is added to the current table cell.
pub open spec fn table_text_pushed(v: WriterView, text: Seq<char>) -> WriterView {
    match v.table {
        Some(t) => in_table(v, Some(TableView { cell: t.cell + restored_pipes(text), ..t })),
        None => v,
    }
}


/// The state after a table starts: the current line is finished, and a blank line set
/// before the table unless it is the first output.
pub open spec fn table_started(v: WriterView) -> WriterView {
    let v1 = WriterView { lines: flushed(v.lines), ..v };
    let v2 = if v1.lines.output.len() > 0 {
        with_blank(v1)
    } else {
        v1
    };
    WriterView {
        table: Some(
            TableView {
                rows: Seq::empty(),
                row: Seq::empty(),
                cell: Seq::empty(),
                in_header: false,
                row_is_header: false,
            },
        ),
        needs_newline: false,
        ..v2
    }
}

/// The state after a table ends: its rows go to the output as a table.
pub open spec fn table_ended(v: WriterView) -> WriterView {
    match v.table {
        Some(t) => {
            let f = flushed(v.lines);
            WriterView {
                lines: AssemblerView { output: f.output.push(OutputView::Table(t.rows)), ..f },
                table: None,
                needs_newline: true,
                ..v
            }
        },
        None => v,
    }
}

/// The state after a thematic break: a `---` line in accent colour (or `---` in a table
/// cell).
pub open spec fn rule_added(v: WriterView) -> WriterView {
    if v.table is Some {
        table_text_pushed(v, seq!['-', '-', '-'])
    } else {
        let v1 = WriterView { lines: flushed(v.lines), ..v };
        let v2 = if v1.lines.output.len() > 0 {
            with_blank(v1)
        } else {
            v1
        };
        let v3 = WriterView {
            lines: line_pushed(
                v2.lines,
                seq![(seq!['-', '-', '-'], seq![StyleKind::Accent])],
                Seq::empty(),
            ),
            ..v2
        };
        WriterView { needs_newline: true, ..v3 }
    }
}

/// Whether the label of a local file link is being read (and is not shown).
pub open spec fn suppressing_label(v: WriterView) -> bool {
    v.link matches Some(l) && l.local_display is Some
}

/// The state with the current line no longer ending in a local link target.
pub open spec fn link_end_cleared(v: WriterView) -> WriterView {
    WriterView { lines: AssemblerView { ends_with_link: false, ..v.lines }, ..v }
}

/// The state after a hard line break.
pub open spec fn hard_break_added(v: WriterView) -> WriterView {
    if v.table is Some {
        table_text_pushed(v, seq![' '])
    } else if suppressing_label(v) {
        v
    } else {
        new_line(link_end_cleared(v))
    }
}

/// The state after a soft line break: a new line, except right after a local link target,
/// where the break waits to see whether a `: description` follows.
pub open spec fn soft_break_added(v: WriterView) -> WriterView {
    if v.table is Some {
        table_text_pushed(v, seq![' '])
    } else if suppressing_label(v) {
        v
    } else if v.lines.ends_with_link {
        WriterView { pending_soft_break: true, ..link_end_cleared(v) }
    } else {
        new_line(link_end_cleared(v))
    }
}

/// The text of a task list marker.
pub open spec fn task_marker(checked: bool) -> Seq<char> {
    if checked {
        seq!['[', 'x', ']', ' ']
    } else {
        seq!['[', ' ', ']', ' ']
    }
}

/// The state after a task list marker.
pub open spec fn task_marker_added(v: WriterView, checked: bool) -> WriterView {
    if v.table is Some {
        table_text_pushed(v, task_marker(checked))
    } else {
        let v1 = if v.lines.pending_marker_line {
            new_line(v)
        } else {
            v
        };
        with_span(v1, (task_marker(checked), seq![StyleKind::Strong]))
    }
}

/// The state after inline code.
pub open spec fn code_added(v: WriterView, code: Seq<char>) -> WriterView {
    if v.table is Some {
        table_text_pushed(v, code)
    } else if suppressing_label(v) {
        v
    } else {
        let v1 = link_end_cleared(v);
        let v2 = if v1.lines.pending_marker_line {
            new_line(v1)
        } else {
            v1
        };
        with_span(v2, (code, seq![StyleKind::Code]))
    }
}

impl MarkdownWriter {
    fn push_table_text(&mut self, text: &str)
        ensures
            final(self)@ == table_text_pushed(old(self)@, text@),
    {
        if let Some(table) = &mut self.table_state {
            table.push_table_text(text);
        }
    }

    pub fn start_paragraph(&mut self)
        ensures
            final(self)@ == paragraph_started(old(self)@),
    {
        if self.needs_newline {
            self.push_blank();
        }
        self.new_line();
        self.needs_newline = false;
        self.in_paragraph = true;
    }

    pub fn end_paragraph(&mut self)
        ensures
            final(self)@ == paragraph_ended(old(self)@),
    {
        self.needs_newline = true;
        self.in_paragraph = false;
        self.lines.pending_marker_line = false;
        self.pending_list_lead_highlight = false;
    }

    pub fn start_heading(&mut self, level: u8)
        ensures
            final(self)@ == heading_started(old(self)@, level),
    {
        let ghost v0 = self@;
        if self.needs_newline {
            self.new_line();
            self.needs_newline = false;
        }
        let ghost v1 = self@;
        assert(v1 == if v0.needs_newline {
            WriterView { needs_newline: false, ..new_line(v0) }
        } else {
            v0
        });
        let mut marker = crate::text::repeat_char('#', level as usize);
        marker.push(' ');
        let text = string_from_chars(marker.as_slice());
        let piece = Piece { text, style: vec![StyleKind::Heading(level)] };
        let ghost pv = piece@;
        let content = vec![piece];
        assert(pieces_view(content@) =~= seq![pv]);
        assert(pv.0 =~= heading_marker(level));
        assert(pv.1 =~= seq![StyleKind::Heading(level)]);
        let empty: Vec<StyleKind> = Vec::new();
        assert(empty@ =~= Seq::<StyleKind>::empty());
        self.lines.push_line(content, empty);
        let ghost v2 = self@;
        assert(v2 == WriterView {
            lines: line_pushed(
                v1.lines,
                seq![(heading_marker(level), seq![StyleKind::Heading(level)])],
                Seq::empty(),
            ),
            ..v1
        });
        self.push_inline_style(StyleKind::Heading(level));
        self.needs_newline = false;
    }

    pub fn end_heading(&mut self)
        ensures
            final(self)@ == style_popped(WriterView { needs_newline: true, ..old(self)@ }),
    {
        self.needs_newline = true;
        self.pop_inline_style();
    }

    pub fn start_blockquote(&mut self)
        ensures
            final(self)@ == block_quote_started(old(self)@),
    {
        if self.needs_newline {
            self.push_blank();
            self.needs_newline = false;
        }
        let piece = Piece { text: String::from_str("> "), style: Vec::new() };
        proof {
            reveal_strlit("> ");
        }
        let ghost pv = piece@;
        assert(pv == (seq!['>', ' '], Seq::<StyleKind>::empty()));
        let prefix = vec![piece];
        assert(pieces_view(prefix@) =~= seq![pv]);
        self.push_frame(prefix, None, false);
    }

    pub fn end_blockquote(&mut self)
        ensures
            final(self)@ == (WriterView { needs_newline: true, ..frame_popped(old(self)@) }),
    {
        self.pop_frame();
        self.needs_newline = true;
    }

    pub fn start_list(&mut self, index: Option<u64>)
        ensures
            final(self)@ == list_started(old(self)@, index),
    {
        if self.list_indices.len() == 0 && self.needs_newline {
            self.new_line();
        }
        self.list_indices.push(index);
    }

    pub fn end_list(&mut self)
        ensures
            final(self)@ == list_ended(old(self)@),
    {
        if self.list_indices.len() > 0 {
            self.list_indices.pop();
        }
        self.needs_newline = true;
    }

    pub fn start_item(&mut self)
        requires
            old(self)@.list_indices.len() >= 1,
            old(self)@.list_indices.len() * 4 <= usize::MAX,
            old(self)@.list_indices.last() != Some(u64::MAX),
        ensures
            final(self)@ == item_started(old(self)@),
    {
        self.lines.pending_marker_line = true;
        self.pending_list_lead_highlight = true;
        let depth = self.list_indices.len();
        let index = self.list_indices[depth - 1];
        let layout = list_item_layout(depth, index);
        let style = if index.is_some() {
            StyleKind::OrderedListMarker
        } else {
            StyleKind::UnorderedListMarker
        };
        let next = match index {
            Some(_) => layout.next_index,
            None => None,
        };
        self.list_indices.set(depth - 1, next);
        let mstyle = vec![style];
        assert(mstyle@ =~= seq![style]);
        assert(layout.marker@ == item_marker(depth as nat, index));
        let marker_piece = Piece { text: layout.marker, style: mstyle };
        let ghost mv = marker_piece@;
        let marker = vec![marker_piece];
        assert(pieces_view(marker@) =~= seq![mv]);
        let pad = crate::text::repeat_char(' ', layout.indent);
        let no_style: Vec<StyleKind> = Vec::new();
        assert(no_style@ =~= Seq::<StyleKind>::empty());
        let indent_piece = Piece { text: string_from_chars(pad.as_slice()), style: no_style };
        let ghost iv = indent_piece@;
        let prefix = vec![indent_piece];
        assert(pieces_view(prefix@) =~= seq![iv]);
        assert(iv.0 =~= spaces(item_indent(depth as nat, index)));
        self.needs_newline = false;
        self.push_frame(prefix, Some(marker), true);
    }

    pub fn end_item(&mut self)
        ensures
            final(self)@ == item_ended(old(self)@),
    {
        self.pop_frame();
        self.lines.pending_marker_line = false;
        self.pending_list_lead_highlight = false;
    }

    pub fn start_table(&mut self)
        ensures
            final(self)@ == table_started(old(self)@),
    {
        self.lines.flush_current_line();
        if self.lines.output.len() > 0 {
            self.push_blank();
        }
        self.table_state = Some(TableBuilder::new());
        self.needs_newline = false;
    }

    pub fn end_table(&mut self)
        ensures
            final(self)@ == table_ended(old(self)@),
    {
        let mut taken: Option<TableBuilder> = None;
        std::mem::swap(&mut taken, &mut self.table_state);
        if let Some(table) = taken {
            self.lines.flush_current_line();
            let ghost before = self.lines.output@;
            let ghost rows = table@.rows;
            let line = OutputLine::Table(table.rows);
            assert(line@ == OutputView::Table(rows));
            self.lines.output.push(line);
            assert(outputs_view(self.lines.output@) =~= outputs_view(before).push(line@));
            self.needs_newline = true;
        }
    }

    pub fn start_table_head(&mut self)
        ensures
            final(self)@ == match old(self)@.table {
                Some(t) => in_table(
                    old(self)@,
                    Some(
                        TableView {
                            row: Seq::empty(),
                            cell: Seq::empty(),
                            in_header: true,
                            row_is_header: true,
                            ..t
                        },
                    ),
                ),
                None => old(self)@,
            },
    {
        if let Some(table) = &mut self.table_state {
            table.start_table_head();
        }
    }

    pub fn end_table_head(&mut self)
        ensures
            final(self)@ == match old(self)@.table {
                Some(t) => in_table(
                    old(self)@,
                    Some(TableView { in_header: false, row_is_header: false, ..row_finished(t) }),
                ),
                None => old(self)@,
            },
    {
        if let Some(table) = &mut self.table_state {
            table.end_table_head();
        }
    }

    pub fn start_table_row(&mut self)
        ensures
            final(self)@ == match old(self)@.table {
                Some(t) => in_table(
                    old(self)@,
                    Some(TableView { row: Seq::empty(), row_is_header: t.in_header, ..t }),
                ),
                None => old(self)@,
            },
    {
        if let Some(table) = &mut self.table_state {
            table.start_table_row();
        }
    }

    pub fn end_table_row(&mut self)
        ensures
            final(self)@ == match old(self)@.table {
                Some(t) => in_table(old(self)@, Some(row_finished(t))),
                None => old(self)@,
            },
    {
        if let Some(table) = &mut self.table_state {
            table.end_table_row();
        }
    }

    pub fn start_table_cell(&mut self)
        ensures
            final(self)@ == match old(self)@.table {
                Some(t) => in_table(old(self)@, Some(TableView { cell: Seq::empty(), ..t })),
                None => old(self)@,
            },
    {
        if let Some(table) = &mut self.table_state {
            table.start_table_cell();
        }
    }

    pub fn end_table_cell(&mut self)
        ensures
            final(self)@ == match old(self)@.table {
                Some(t) => in_table(old(self)@, Some(cell_finished(t))),
                None => old(self)@,
            },
    {
        if let Some(table) = &mut self.table_state {
            table.end_table_cell();
        }
    }

    pub fn rule(&mut self)
        ensures
            final(self)@ == rule_added(old(self)@),
    {
        if self.table_state.is_some() {
            proof {
                reveal_strlit("---");
            }
            assert("---"@ =~= seq!['-', '-', '-']);
            self.push_table_text("---");
            return;
        }
        self.lines.flush_current_line();
        if self.lines.output.len() > 0 {
            self.push_blank();
        }
        let accent = vec![StyleKind::Accent];
        assert(accent@ =~= seq![StyleKind::Accent]);
        let piece = Piece { text: String::from_str("---"), style: accent };
        proof {
            reveal_strlit("---");
        }
        let ghost pv = piece@;
        assert(pv == (seq!['-', '-', '-'], seq![StyleKind::Accent]));
        let content = vec![piece];
        assert(pieces_view(content@) =~= seq![pv]);
        let empty: Vec<StyleKind> = Vec::new();
        assert(empty@ =~= Seq::<StyleKind>::empty());
        self.lines.push_line(content, empty);
        self.needs_newline = true;
    }

    /// Whether the label of a local file link is being read.
    pub fn suppressing_local_link_label(&self) -> (r: bool)
        ensures
            r == suppressing_label(self@),
    {
        match &self.link {
            Some(l) => l.local_target_display.is_some(),
            None => false,
        }
    }

    pub fn hard_break(&mut self)
        ensures
            final(self)@ == hard_break_added(old(self)@),
    {
        if self.table_state.is_some() {
            proof {
                reveal_strlit(" ");
            }
            assert(" "@ =~= seq![' ']);
            self.push_table_text(" ");
            return;
        }
        if self.suppressing_local_link_label() {
            return;
        }
        self.lines.line_ends_with_local_link_target = false;
        self.new_line();
    }

    pub fn soft_break(&mut self)
        ensures
            final(self)@ == soft_break_added(old(self)@),
    {
        if self.table_state.is_some() {
            proof {
                reveal_strlit(" ");
            }
            assert(" "@ =~= seq![' ']);
            self.push_table_text(" ");
            return;
        }
        if self.suppressing_local_link_label() {
            return;
        }
        if self.lines.line_ends_with_local_link_target {
            self.pending_local_link_soft_break = true;
            self.lines.line_ends_with_local_link_target = false;
            return;
        }
        self.lines.line_ends_with_local_link_target = false;
        self.new_line();
    }

    pub fn task_list_marker(&mut self, checked: bool)
        ensures
            final(self)@ == task_marker_added(old(self)@, checked),
    {
        let text = if checked {
            proof {
                reveal_strlit("[x] ");
            }
            "[x] "
        } else {
            proof {
                reveal_strlit("[ ] ");
            }
            "[ ] "
        };
        assert(text@ == task_marker(checked));
        if self.table_state.is_some() {
            self.push_table_text(text);
            return;
        }
        if self.lines.pending_marker_line {
            self.new_line();
        }
        let strong = vec![StyleKind::Strong];
        assert(strong@ =~= seq![StyleKind::Strong]);
        self.push_span(String::from_str(text), strong);
    }

    pub fn code(&mut self, code: &str)
        ensures
            final(self)@ == code_added(old(self)@, code@),
    {
        if self.table_state.is_some() {
            self.push_table_text(code);
            return;
        }
        if self.suppressing_local_link_label() {
            return;
        }
        self.lines.line_ends_with_local_link_target = false;
        if self.lines.pending_marker_line {
            self.new_line();
        }
        let code_style = vec![StyleKind::Code];
        assert(code_style@ =~= seq![StyleKind::Code]);
        self.push_span(String::from_str(code), code_style);
    }
}

/// The state after pieces are added to the current line one after another.
pub open spec fn spans_pushed(v: WriterView, pieces: Seq<PieceView>) -> WriterView
    decreases pieces.len(),
{
    if pieces.len() == 0 {
        v
    } else {
        with_span(spans_pushed(v, pieces.drop_last()), pieces.last())
    }
}

/// Math pieces styled: math in the accent colour, plain text in `base`.
pub open spec fn math_styled(ps: Seq<(Seq<char>, bool)>, base: Seq<StyleKind>) -> Seq<PieceView> {
    ps.map_values(
        |p: (Seq<char>, bool)|
            (
                p.0,
                if p.1 {
                    seq![StyleKind::Accent]
                } else {
                    base
                },
            ),
    )
}

/// The state after a line of text is added with its math set apart (see [`math_line`]).
pub open spec fn math_applied(v: WriterView, line: Seq<char>) -> WriterView {
    let m = math_line(line, v.in_math_block);
    WriterView { in_math_block: m.1, ..spans_pushed(v, math_styled(m.0, base_style(v))) }
}

/// The state after the first line of a list item is looked at for a short label (see
/// [`list_lead`]): the leading whitespace and the rest in the text style, the label strong.
pub open spec fn lead_applied(v: WriterView, line: Seq<char>) -> WriterView {
    let l = list_lead(line, v.pending_lead, v.inline_styles.len() == 0);
    let b = base_style(v);
    let v1 = match l.0 {
        Some(x) => with_span(v, (x, b)),
        None => v,
    };
    let v2 = match l.1 {
        Some(x) => with_span(v1, (x, seq![StyleKind::Strong])),
        None => v1,
    };
    let v3 = match l.2 {
        Some(x) => with_span(v2, (x, b)),
        None => v2,
    };
    WriterView { pending_lead: l.3, ..v3 }
}

/// Whether a line is shown as a list item's label line.
pub open spec fn lead_rendered(v: WriterView, line: Seq<char>) -> bool {
    list_lead(line, v.pending_lead, v.inline_styles.len() == 0).1 is Some
}

/// The state after the `i`-th line of a text is added: on a new line when one is due or it
/// is not the first, as a label line or with its math set apart.
pub open spec fn text_line_applied(v: WriterView, line: Seq<char>, i: int) -> WriterView {
    let v1 = if v.needs_newline {
        WriterView { needs_newline: false, ..new_line(v) }
    } else {
        v
    };
    let v2 = if i > 0 {
        new_line(v1)
    } else {
        v1
    };
    if lead_rendered(v2, line) {
        lead_applied(v2, line)
    } else {
        math_applied(lead_applied(v2, line), line)
    }
}

/// The state after the first `k` lines are added.
pub open spec fn text_lines_applied(v: WriterView, lines: Seq<Seq<char>>, k: int) -> WriterView
    decreases k,
{
    if k <= 0 {
        v
    } else {
        text_line_applied(text_lines_applied(v, lines, k - 1), lines[k - 1], k - 1)
    }
}

/// `t` with each line break turned into a space.
pub open spec fn newlines_to_spaces(t: Seq<char>) -> Seq<char> {
    t.map_values(|c: char| if c == '\n' { ' ' } else { c })
}

/// Whether a finished line shows pieces (for a line still to wrap: its text or its
/// first-line indent).
pub open spec fn output_has_pieces(o: OutputView) -> bool {
    match o {
        OutputView::Plain(p, _) => p.len() > 0,
        OutputView::Wrap(p, _, a, _, _) => p.len() > 0 || a.len() > 0,
        OutputView::Table(_) => true,
    }
}

/// Whether the line being built, or else the last finished one, shows pieces.
pub open spec fn line_has_content(v: WriterView) -> bool {
    match v.lines.current {
        Some(c) => c.content.len() > 0,
        None => v.lines.output.len() > 0 && output_has_pieces(v.lines.output.last()),
    }
}

/// The state after a text event: text in a table goes to the current cell, the label of a
/// local link is dropped, code of a known language is kept to be highlighted, and other
/// text is added line by line.
pub open spec fn text_applied(v: WriterView, t: Seq<char>) -> WriterView {
    if v.table is Some {
        table_text_pushed(v, newlines_to_spaces(t))
    } else if suppressing_label(v) {
        v
    } else {
        text_body(text_prelude(v), t)
    }
}

/// Before text is added: the line no longer ends in a link target, and a pending list
/// marker gets its line.
pub open spec fn text_prelude(v: WriterView) -> WriterView {
    let v1 = link_end_cleared(v);
    let v2 = if v1.lines.pending_marker_line {
        new_line(v1)
    } else {
        v1
    };
    WriterView { lines: AssemblerView { pending_marker_line: false, ..v2.lines }, ..v2 }
}

/// Text added after [`text_prelude`].
pub open spec fn text_body(v3: WriterView, t: Seq<char>) -> WriterView {
    if v3.lines.in_code_block && v3.code_lang is Some {
        WriterView { code_buffer: v3.code_buffer + t, ..v3 }
    } else {
        let v4 = if v3.lines.in_code_block && !v3.needs_newline && line_has_content(v3) {
            new_line(v3)
        } else {
            v3
        };
        let ls = lines_of(t);
        WriterView { needs_newline: false, ..text_lines_applied(v4, ls, ls.len() as int) }
    }
}

/// The state after the `i`-th line of raw HTML is added in `style`.
pub open spec fn html_line_applied(v: WriterView, line: Seq<char>, i: int, style: Seq<StyleKind>) -> WriterView {
    let v1 = if v.needs_newline {
        WriterView { needs_newline: false, ..new_line(v) }
    } else {
        v
    };
    let v2 = if i > 0 {
        new_line(v1)
    } else {
        v1
    };
    with_span(v2, (line, style))
}

/// The state after the first `k` lines of raw HTML are added.
pub open spec fn html_lines_applied(v: WriterView, lines: Seq<Seq<char>>, k: int, style: Seq<StyleKind>) -> WriterView
    decreases k,
{
    if k <= 0 {
        v
    } else {
        html_line_applied(html_lines_applied(v, lines, k - 1, style), lines[k - 1], k - 1, style)
    }
}

/// The state after raw HTML: shown line by line in the text style; a block of HTML ends
/// its line.
pub open spec fn html_applied(v: WriterView, t: Seq<char>, inline: bool) -> WriterView {
    if v.table is Some {
        table_text_pushed(v, newlines_to_spaces(t))
    } else if suppressing_label(v) {
        v
    } else {
        let v1 = WriterView {
            lines: AssemblerView { ends_with_link: false, pending_marker_line: false, ..v.lines },
            ..v
        };
        let ls = lines_of(t);
        WriterView {
            needs_newline: !inline,
            ..html_lines_applied(v1, ls, ls.len() as int, base_style(v1))
        }
    }
}

/// `t` with each line break turned into a space (see [`newlines_to_spaces`]).
fn spaces_for_newlines(t: &str) -> (r: String)
    ensures
        r@ == newlines_to_spaces(t@),
{
    let chars = chars_of(t);
    let mut out: Vec<char> = Vec::new();
    let mut i: usize = 0;
    while i < chars.len()
        invariant
            i <= chars@.len(),
            chars@ == t@,
            out@ == newlines_to_spaces(t@.subrange(0, i as int)),
        decreases chars@.len() - i,
    {
        out.push(if chars[i] == '\n' {
            ' '
        } else {
            chars[i]
        });
        i += 1;
        assert(out@ =~= newlines_to_spaces(t@.subrange(0, i as int)));
    }
    assert(t@.subrange(0, t@.len() as int) =~= t@);
    string_from_chars(out.as_slice())
}

impl MarkdownWriter {
    /// Adds a line of text with its math set apart (see [`math_applied`]).
    pub fn push_text_with_math_highlighting(&mut self, line: &str)
        ensures
            final(self)@ == math_applied(old(self)@, line@),
    {
        let ghost v0 = self@;
        let base = self.base_inline_style();
        let (pieces, in_block) = math_highlight_pieces(line, self.in_math_block);
        let ghost styled = math_styled(piece_views(pieces@), base@);
        let mut k: usize = 0;
        while k < pieces.len()
            invariant
                k <= pieces@.len(),
                base@ == base_style(v0),
                (piece_views(pieces@), in_block) == math_line(line@, v0.in_math_block),
                styled == math_styled(piece_views(pieces@), base@),
                self@ == spans_pushed(v0, styled.subrange(0, k as int)),
            decreases pieces@.len() - k,
        {
            let (text, is_math) = &pieces[k];
            let style = if *is_math {
                let a = vec![StyleKind::Accent];
                assert(a@ =~= seq![StyleKind::Accent]);
                a
            } else {
                copy_styles(&base)
            };
            let chars = chars_of(text.as_str());
            let owned = string_from_chars(chars.as_slice());
            assert((owned@, style@) == styled[k as int]);
            self.push_span(owned, style);
            assert(styled.subrange(0, k + 1).drop_last() =~= styled.subrange(0, k as int));
            k += 1;
        }
        assert(styled.subrange(0, pieces@.len() as int) =~= styled);
        self.in_math_block = in_block;
    }

    /// Looks at the first line of a list item for a short label (see [`lead_applied`]);
    /// tells whether it shows the line.
    pub fn try_render_list_lead(&mut self, line: &str) -> (r: bool)
        ensures
            final(self)@ == lead_applied(old(self)@, line@),
            r == lead_rendered(old(self)@, line@),
    {
        let lead = try_render_list_lead(
            line,
            self.pending_list_lead_highlight,
            self.inline_styles.len() == 0,
        );
        let base = self.base_inline_style();
        if let Some(leading) = lead.leading {
            self.push_span(leading, copy_styles(&base));
        }
        let rendered = lead.label.is_some();
        if let Some(label) = lead.label {
            let strong = vec![StyleKind::Strong];
            assert(strong@ =~= seq![StyleKind::Strong]);
            self.push_span(label, strong);
        }
        if let Some(rest) = lead.rest {
            self.push_span(rest, copy_styles(&base));
        }
        self.pending_list_lead_highlight = lead.pending;
        rendered
    }

    /// Whether the line being built, or else the last finished one, shows pieces.
    fn has_content(&self) -> (r: bool)
        ensures
            r == line_has_content(self@),
    {
        match &self.lines.current {
            Some(c) => c.content.len() > 0,
            None => {
                let n = self.lines.output.len();
                if n == 0 {
                    false
                } else {
                    let ghost last = self.lines.output@[n - 1];
                    assert(self@.lines.output.last() == last@);
                    match &self.lines.output[n - 1] {
                        OutputLine::Plain(p, _) => p.len() > 0,
                        OutputLine::Wrap(p, _, a, _, _) => p.len() > 0 || a.len() > 0,
                        OutputLine::Table(_) => true,
                    }
                }
            },
        }
    }

    /// Adds the `i`-th line of a text (see [`text_line_applied`]).
    fn add_text_line(&mut self, line: &str, i: usize)
        ensures
            final(self)@ == text_line_applied(old(self)@, line@, i as int),
    {
        if self.needs_newline {
            self.new_line();
            self.needs_newline = false;
        }
        if i > 0 {
            self.new_line();
        }
        if !self.try_render_list_lead(line) {
            self.push_text_with_math_highlighting(line);
        }
    }

    /// Adds the lines of a text one by one.
    fn add_text_lines(&mut self, text: &str)
        ensures
            final(self)@ == text_lines_applied(old(self)@, lines_of(text@), lines_of(text@).len() as int),
    {
        let ghost v4 = self@;
        let lines = split_lines(text);
        let ghost ls = lines_of(text@);
        let mut i: usize = 0;
        while i < lines.len()
            invariant
                i <= lines@.len(),
                str_views(lines@) == ls,
                self@ == text_lines_applied(v4, ls, i as int),
            decreases lines@.len() - i,
        {
            let line = lines[i];
            assert(line@ == ls[i as int]);
            self.add_text_line(line, i);
            i += 1;
        }
    }

    /// Handles text (see [`text_applied`]).
    pub fn text(&mut self, text: &str)
        ensures
            final(self)@ == text_applied(old(self)@, text@),
    {
        if self.table_state.is_some() {
            let flat = spaces_for_newlines(text);
            self.push_table_text(flat.as_str());
            return;
        }
        if self.suppressing_local_link_label() {
            return;
        }
        self.text_prelude();
        self.text_body(text);
    }

    fn text_prelude(&mut self)
        ensures
            final(self)@ == text_prelude(old(self)@),
    {
        self.lines.line_ends_with_local_link_target = false;
        if self.lines.pending_marker_line {
            self.new_line();
        }
        self.lines.pending_marker_line = false;
    }

    fn text_body(&mut self, text: &str)
        ensures
            final(self)@ == text_body(old(self)@, text@),
    {
        if self.lines.in_code_block && self.code_block_lang.is_some() {
            self.code_block_buffer.append(text);
            return;
        }
        if self.lines.in_code_block && !self.needs_newline && self.has_content() {
            self.new_line();
        }
        self.add_text_lines(text);
        self.needs_newline = false;
    }

    /// Handles raw HTML (see [`html_applied`]).
    pub fn html(&mut self, html: &str, inline: bool)
        ensures
            final(self)@ == html_applied(old(self)@, html@, inline),
    {
        if self.table_state.is_some() {
            let flat = spaces_for_newlines(html);
            self.push_table_text(flat.as_str());
            return;
        }
        if self.suppressing_local_link_label() {
            return;
        }
        self.lines.line_ends_with_local_link_target = false;
        self.lines.pending_marker_line = false;
        let ghost v1 = self@;
        let style = self.base_inline_style();
        let lines = split_lines(html);
        let ghost ls = lines_of(html@);
        let mut i: usize = 0;
        while i < lines.len()
            invariant
                i <= lines@.len(),
                str_views(lines@) == ls,
                style@ == base_style(v1),
                self@ == html_lines_applied(v1, ls, i as int, style@),
            decreases lines@.len() - i,
        {
            let line = lines[i];
            assert(line@ == ls[i as int]);
            if self.needs_newline {
                self.new_line();
                self.needs_newline = false;
            }
            if i > 0 {
                self.new_line();
            }
            let chars = chars_of(line);
            self.push_span(string_from_chars(chars.as_slice()), copy_styles(&style));
            i += 1;
        }
        self.needs_newline = !inline;
    }
}

/// The text shown for a plain (not `file://`, not home-relative) local link: its display
/// path followed by its location suffix (see [`render_local_link_target`]).
pub open spec fn plain_link_display(
    dest: Seq<char>,
    cwd: Option<Seq<char>>,
    hash_suffix: Option<Seq<char>>,
) -> Seq<char> {
    let split = split_plain_target(dest, hash_suffix);
    displayed_path(normalized_path(split.0), cwd) + match split.1 {
        Some(x) => x,
        None => Seq::empty(),
    }
}

/// What holds of the text shown in place of a link's label: only local links have one; a
/// plain local link always has one, shown as [`plain_target_shown`] says (exactly
/// [`plain_link_display`] unless it is home-relative); a `file://` link has one exactly when
/// it parses as a URL, shown as [`file_target_shown`] says.
pub open spec fn local_display_fits(
    dest: Seq<char>,
    cwd: Option<Seq<char>>,
    hash_suffix: Option<Seq<char>>,
    local: Option<Seq<char>>,
) -> bool {
    &&& !is_local_link(dest) ==> local is None
    &&& is_local_link(dest) && !is_file_url(dest) ==> (local matches Some(t) && plain_target_shown(
        dest,
        cwd,
        hash_suffix,
        t,
    ))
    &&& is_local_link(dest) && !is_file_url(dest) && !has_prefix(
        split_plain_target(dest, hash_suffix).0,
        seq!['~', '/'],
    ) ==> local == Some(plain_link_display(dest, cwd, hash_suffix))
    &&& is_file_url(dest) ==> (local is Some <==> url_parses(dest))
    &&& is_file_url(dest) ==> (local matches Some(t) ==> file_target_shown(dest, cwd, hash_suffix, t))
}

/// The text shown in place of the current link's label, if any.
pub open spec fn link_local(v: WriterView) -> Option<Seq<char>> {
    match v.link {
        Some(l) => l.local_display,
        None => None,
    }
}

/// The state after a link to `dest` starts, with `local` the text shown in place of its
/// label: its label takes the link text style.
pub open spec fn link_pushed(v: WriterView, dest: Seq<char>, local: Option<Seq<char>>) -> WriterView {
    WriterView {
        link: Some(
            LinkView { destination: dest, show_destination: !is_local_link(dest), local_display: local },
        ),
        ..style_pushed(v, StyleKind::LinkText)
    }
}

/// The state after a link ends: a web link is followed by its destination in parentheses;
/// a local link shows its target as code (and a soft break after it may stay inline).
pub open spec fn link_popped(v: WriterView) -> WriterView {
    let v1 = style_popped(v);
    match v.link {
        None => v1,
        Some(l) => {
            let v2 = WriterView { link: None, ..v1 };
            if v2.table is Some {
                if l.show_destination {
                    table_text_pushed(
                        table_text_pushed(table_text_pushed(v2, seq![' ', '(']), l.destination),
                        seq![')'],
                    )
                } else {
                    match l.local_display {
                        Some(d) => table_text_pushed(v2, d),
                        None => v2,
                    }
                }
            } else if l.show_destination {
                spans_pushed(
                    v2,
                    seq![
                        (seq![' ', '('], Seq::empty()),
                        (l.destination, seq![StyleKind::LinkDestination]),
                        (seq![')'], Seq::empty()),
                    ],
                )
            } else {
                match l.local_display {
                    Some(d) => {
                        let v3 = if v2.lines.pending_marker_line {
                            new_line(v2)
                        } else {
                            v2
                        };
                        let outer = if v3.inline_styles.len() > 0 {
                            v3.inline_styles.last()
                        } else {
                            Seq::empty()
                        };
                        let v4 = with_span(v3, (d, outer.push(StyleKind::Code)));
                        WriterView { lines: AssemblerView { ends_with_link: true, ..v4.lines }, ..v4 }
                    },
                    None => v2,
                }
            }
        },
    }
}

/// The state after a code block starts (`info` is the info string of a fenced block, none
/// for an indented one): it begins on its own line after a blank line, indented code is
/// indented by four spaces, and the language is the info string's first token.
pub open spec fn code_block_started(v: WriterView, info: Option<Seq<char>>) -> WriterView {
    let v1 = WriterView { lines: flushed(v.lines), ..v };
    let v2 = if v1.lines.output.len() > 0 {
        with_blank(v1)
    } else {
        v1
    };
    let v3 = WriterView {
        lines: AssemblerView { in_code_block: true, ..v2.lines },
        code_lang: match info {
            Some(i) => info_language(i),
            None => None,
        },
        code_buffer: Seq::empty(),
        needs_newline: true,
        ..v2
    };
    frame_pushed(
        v3,
        frame_view(
            seq![
                (
                    if info is None {
                        spaces(4)
                    } else {
                        Seq::empty()
                    },
                    Seq::empty(),
                ),
            ],
            None,
            false,
        ),
    )
}

/// The state after the highlighted lines of a code block are added, each on a line of its
/// own.
pub open spec fn highlighted_applied(v: WriterView, hl: Seq<Seq<PieceView>>, k: int) -> WriterView
    decreases k,
{
    if k <= 0 {
        v
    } else {
        spans_pushed(new_line(highlighted_applied(v, hl, k - 1)), hl[k - 1])
    }
}

/// The state after the code kept for highlighting, if any, is shown as `hl`.
pub open spec fn kept_code_shown(v: WriterView, hl: Seq<Seq<PieceView>>) -> WriterView {
    match v.code_lang {
        Some(_) => {
            let v0 = WriterView { code_lang: None, code_buffer: Seq::empty(), ..v };
            if v.code_buffer.len() > 0 {
                highlighted_applied(v0, hl, hl.len() as int)
            } else {
                v0
            }
        },
        None => v,
    }
}

/// The state after a code block ends; `hl` is the highlighting of the code kept for a
/// block with a language.
pub open spec fn code_block_ended(v: WriterView, hl: Seq<Seq<PieceView>>) -> WriterView {
    let v1 = kept_code_shown(v, hl);
    frame_popped(
        WriterView {
            lines: AssemblerView { in_code_block: false, ..v1.lines },
            needs_newline: true,
            ..v1
        },
    )
}

/// The views of highlighted lines.
pub open spec fn highlighted_view(h: Seq<Vec<Piece>>) -> Seq<Seq<PieceView>> {
    h.map_values(|l: Vec<Piece>| pieces_view(l@))
}

impl MarkdownWriter {
    /// Starts a link to `dest`; `hash_suffix` is the normalized form of its `#L..` fragment
    /// (see [`crate::links::local_link_hash_fragment`]).
    pub fn push_link(&mut self, dest: String, hash_suffix: Option<String>)
        ensures
            final(self)@ == link_pushed(old(self)@, dest@, link_local(final(self)@)),
            local_display_fits(dest@, old(self)@.cwd, opt_string(hash_suffix), link_local(final(self)@)),
    {
        let show_destination = should_render_link_destination(dest.as_str());
        let cwd: Option<&str> = match &self.cwd {
            Some(c) => Some(c.as_str()),
            None => None,
        };
        let hash: Option<&str> = match &hash_suffix {
            Some(h) => Some(h.as_str()),
            None => None,
        };
        assert(opt_str(cwd) == self@.cwd);
        assert(opt_str(hash) == opt_string(hash_suffix));
        let local_target_display = if is_local_path_like_link(dest.as_str()) {
            render_local_link_target(dest.as_str(), cwd, hash)
        } else {
            None
        };
        self.push_inline_style(StyleKind::LinkText);
        self.link = Some(LinkState { destination: dest, show_destination, local_target_display });
    }

    /// Ends the current link (see [`link_popped`]).
    pub fn pop_link(&mut self)
        ensures
            final(self)@ == link_popped(old(self)@),
    {
        self.pop_inline_style();
        let mut taken: Option<LinkState> = None;
        std::mem::swap(&mut taken, &mut self.link);
        let link = match taken {
            Some(l) => l,
            None => return,
        };
        if self.table_state.is_some() {
            if link.show_destination {
                proof {
                    reveal_strlit(" (");
                    reveal_strlit(")");
                }
                assert(" ("@ =~= seq![' ', '(']);
                assert(")"@ =~= seq![')']);
                self.push_table_text(" (");
                self.push_table_text(link.destination.as_str());
                self.push_table_text(")");
            } else if let Some(local) = &link.local_target_display {
                self.push_table_text(local.as_str());
            }
            return;
        }
        if link.show_destination {
            let ghost v2 = self@;
            proof {
                reveal_strlit(" (");
                reveal_strlit(")");
            }
            let ghost ps = seq![
                (seq![' ', '('], Seq::<StyleKind>::empty()),
                (link.destination@, seq![StyleKind::LinkDestination]),
                (seq![')'], Seq::<StyleKind>::empty()),
            ];
            let open_paren = String::from_str(" (");
            assert(open_paren@ =~= seq![' ', '(']);
            let no_style: Vec<StyleKind> = Vec::new();
            assert(no_style@ =~= Seq::<StyleKind>::empty());
            self.push_span(open_paren, no_style);
            assert(ps.subrange(0, 1).drop_last() =~= Seq::<PieceView>::empty());
            assert(spans_pushed(v2, Seq::<PieceView>::empty()) == v2);
            assert(ps.subrange(0, 1).last() == ps[0]);
            assert(self@ == spans_pushed(v2, ps.subrange(0, 1)));
            let dest_style = vec![StyleKind::LinkDestination];
            assert(dest_style@ =~= seq![StyleKind::LinkDestination]);
            self.push_span(link.destination, dest_style);
            assert(ps.subrange(0, 2).drop_last() =~= ps.subrange(0, 1));
            assert(self@ == spans_pushed(v2, ps.subrange(0, 2)));
            let close_paren = String::from_str(")");
            assert(close_paren@ =~= seq![')']);
            let no_style2: Vec<StyleKind> = Vec::new();
            assert(no_style2@ =~= Seq::<StyleKind>::empty());
            self.push_span(close_paren, no_style2);
            assert(ps.subrange(0, 3).drop_last() =~= ps.subrange(0, 2));
            assert(ps.subrange(0, 3) =~= ps);
        } else if let Some(local) = link.local_target_display {
            if self.lines.pending_marker_line {
                self.new_line();
            }
            let mut style = match self.inline_styles.last() {
                Some(s) => copy_styles(s),
                None => Vec::new(),
            };
            style.push(StyleKind::Code);
            self.push_span(local, style);
            self.lines.line_ends_with_local_link_target = true;
        }
    }

    /// Starts a code block (see [`code_block_started`]).
    pub fn start_codeblock(&mut self, info: Option<String>)
        ensures
            final(self)@ == code_block_started(old(self)@, opt_string(info)),
    {
        self.lines.flush_current_line();
        if self.lines.output.len() > 0 {
            self.push_blank();
        }
        self.lines.in_code_block = true;
        let indented = info.is_none();
        let lang = match &info {
            Some(i) => code_block_language(Some(i.as_str())),
            None => None,
        };
        self.code_block_lang = lang;
        self.code_block_buffer = String::new();
        self.needs_newline = true;
        let text = if indented {
            let pad = crate::text::repeat_char(' ', 4);
            string_from_chars(pad.as_slice())
        } else {
            String::new()
        };
        let piece = Piece { text, style: Vec::new() };
        let ghost pv = piece@;
        let prefix = vec![piece];
        assert(pieces_view(prefix@) =~= seq![pv]);
        assert(pv.0 =~= if info is None {
            spaces(4)
        } else {
            Seq::empty()
        });
        self.push_frame(prefix, None, false);
    }

    /// Adds highlighted lines, each on a line of its own.
    fn push_highlighted(&mut self, highlighted: Vec<Vec<Piece>>)
        ensures
            final(self)@ == highlighted_applied(
                old(self)@,
                highlighted_view(highlighted@),
                highlighted@.len() as int,
            ),
    {
        let ghost v0 = self@;
        let ghost hv = highlighted_view(highlighted@);
        let ghost all = highlighted@;
        let n = highlighted.len();
        let mut rest = highlighted;
        let mut i: usize = 0;
        while i < n
            invariant
                i <= n == hv.len() == all.len(),
                hv == highlighted_view(all),
                rest@ == all.subrange(i as int, n as int),
                self@ == highlighted_applied(v0, hv, i as int),
            decreases n - i,
        {
            let line = rest.remove(0);
            assert(line == all[i as int]);
            assert(rest@ =~= all.subrange(i + 1, n as int));
            self.new_line();
            let ghost v1 = self@;
            let ghost lv = pieces_view(line@);
            assert(lv == hv[i as int]);
            let ghost pieces = line@;
            let m = line.len();
            let mut spans = line;
            let mut j: usize = 0;
            while j < m
                invariant
                    j <= m == pieces.len() == lv.len(),
                    lv == pieces_view(pieces),
                    spans@ == pieces.subrange(j as int, m as int),
                    self@ == spans_pushed(v1, lv.subrange(0, j as int)),
                decreases m - j,
            {
                let piece = spans.remove(0);
                assert(piece == pieces[j as int]);
                assert(spans@ =~= pieces.subrange(j + 1, m as int));
                assert(piece@ == lv[j as int]);
                self.lines.push_span(piece);
                assert(lv.subrange(0, j + 1).drop_last() =~= lv.subrange(0, j as int));
                assert(lv.subrange(0, j + 1).last() == lv[j as int]);
                j += 1;
            }
            assert(lv.subrange(0, m as int) =~= lv);
            i += 1;
        }
    }

    /// Ends a code block; `highlighted` is the highlighting of the code it kept (see
    /// [`code_block_ended`] and [`MarkdownWriter::code_to_highlight`]).
    pub fn end_codeblock(&mut self, highlighted: Vec<Vec<Piece>>)
        ensures
            final(self)@ == code_block_ended(old(self)@, highlighted_view(highlighted@)),
    {
        self.show_kept_code(highlighted);
        self.needs_newline = true;
        self.lines.in_code_block = false;
        self.pop_frame();
    }

    fn show_kept_code(&mut self, highlighted: Vec<Vec<Piece>>)
        ensures
            final(self)@ == kept_code_shown(old(self)@, highlighted_view(highlighted@)),
    {
        if self.code_block_lang.is_some() {
            self.code_block_lang = None;
            let mut code = String::new();
            std::mem::swap(&mut code, &mut self.code_block_buffer);
            if code.as_str().unicode_len() > 0 {
                self.push_highlighted(highlighted);
            }
        }
    }

    /// The language and the code of a code block that waits to be highlighted.
    pub fn code_to_highlight(&self) -> (r: Option<(String, String)>)
        ensures
            match r {
                Some((lang, code)) => self@.code_lang == Some(lang@) && code@ == self@.code_buffer
                    && code@.len() > 0,
                None => self@.code_lang is None || self@.code_buffer.len() == 0,
            },
    {
        match &self.code_block_lang {
            Some(lang) => {
                let code = chars_of(self.code_block_buffer.as_str());
                if code.len() == 0 {
                    None
                } else {
                    let l = chars_of(lang.as_str());
                    Some((string_from_chars(l.as_slice()), string_from_chars(code.as_slice())))
                }
            },
            None => None,
        }
    }
}

/// The start of a markdown element, as the renderer reads it.
pub enum MdTag {
    Paragraph,
    /// A heading of level 1 to 6.
    Heading(u8),
    BlockQuote,
    /// A code block: the info string of a fenced block, none for an indented one.
    CodeBlock(Option<String>),
    /// A list: the number of its first item, none for a bulleted list.
    List(Option<u64>),
    Item,
    Table,
    TableHead,
    TableRow,
    TableCell,
    Emphasis,
    Strong,
    Strikethrough,
    /// A link: its destination, and the normalized form of its `#L..` location fragment.
    Link(String, Option<String>),
    /// An element that renders nothing of its own (an image, a footnote definition, ...).
    Other,
}

/// The end of a markdown element.
pub enum MdTagEnd {
    Paragraph,
    Heading,
    BlockQuote,
    /// The end of a code block, with the highlighting of the code it kept (see
    /// [`MarkdownWriter::code_to_highlight`]).
    CodeBlock(Vec<Vec<Piece>>),
    List,
    Item,
    Table,
    TableHead,
    TableRow,
    TableCell,
    Emphasis,
    Strong,
    Strikethrough,
    Link,
    Other,
}

/// A markdown parser event, as the renderer reads it.
pub enum MdEvent {
    Start(MdTag),
    End(MdTagEnd),
    Text(String),
    Code(String),
    Html(String),
    InlineHtml(String),
    SoftBreak,
    HardBreak,
    Rule,
    TaskListMarker(bool),
    FootnoteReference,
}

/// Whether text begins, after whitespace, with a colon.
pub open spec fn starts_with_colon(t: Seq<char>) -> bool {
    let i = skip_ws(t, 0);
    i < t.len() && t[i] == ':'
}

/// The state before event `e` is handled: a soft break left pending after a local link
/// target becomes a new line, unless the event is text that goes on with a colon.
pub open spec fn prepared_for(v: WriterView, e: MdEvent) -> WriterView {
    if !v.pending_soft_break {
        v
    } else if (e matches MdEvent::Text(t) && starts_with_colon(t@)) {
        WriterView { pending_soft_break: false, ..v }
    } else {
        new_line(WriterView { pending_soft_break: false, ..v })
    }
}

/// Whether a list item can start: the renderer is inside a list whose next number (for a
/// numbered list) does not overflow.
pub open spec fn item_allowed(v: WriterView) -> bool {
    &&& v.list_indices.len() >= 1
    &&& v.list_indices.len() * 4 <= usize::MAX
    &&& v.list_indices.last() != Some(u64::MAX)
}

/// Whether the renderer can handle event `e` in state `v`.
pub open spec fn event_allowed(v: WriterView, e: MdEvent) -> bool {
    (e matches MdEvent::Start(MdTag::Item)) ==> item_allowed(v)
}

/// The state with its table replaced by `t`.
pub open spec fn table_changed(v: WriterView, t: TableView) -> WriterView {
    in_table(v, Some(t))
}

/// The state after event `e`, for every event but the start of a link (see
/// [`link_pushed`]).
pub open spec fn event_applied(v: WriterView, e: MdEvent) -> WriterView {
    match e {
        MdEvent::Start(tag) => match tag {
            MdTag::Paragraph => paragraph_started(v),
            MdTag::Heading(level) => heading_started(v, level),
            MdTag::BlockQuote => block_quote_started(v),
            MdTag::CodeBlock(info) => code_block_started(v, opt_string(info)),
            MdTag::List(index) => list_started(v, index),
            MdTag::Item => item_started(v),
            MdTag::Table => table_started(v),
            MdTag::TableHead => match v.table {
                Some(t) => table_changed(
                    v,
                    TableView { row: Seq::empty(), cell: Seq::empty(), in_header: true, row_is_header: true, ..t },
                ),
                None => v,
            },
            MdTag::TableRow => match v.table {
                Some(t) => table_changed(v, TableView { row: Seq::empty(), row_is_header: t.in_header, ..t }),
                None => v,
            },
            MdTag::TableCell => match v.table {
                Some(t) => table_changed(v, TableView { cell: Seq::empty(), ..t }),
                None => v,
            },
            MdTag::Emphasis => style_pushed(v, StyleKind::Emphasis),
            MdTag::Strong => style_pushed(v, StyleKind::Strong),
            MdTag::Strikethrough => style_pushed(v, StyleKind::Strikethrough),
            MdTag::Link(_, _) => v,
            MdTag::Other => v,
        },
        MdEvent::End(tag) => match tag {
            MdTagEnd::Paragraph => paragraph_ended(v),
            MdTagEnd::Heading => style_popped(WriterView { needs_newline: true, ..v }),
            MdTagEnd::BlockQuote => WriterView { needs_newline: true, ..frame_popped(v) },
            MdTagEnd::CodeBlock(hl) => code_block_ended(v, highlighted_view(hl@)),
            MdTagEnd::List => list_ended(v),
            MdTagEnd::Item => item_ended(v),
            MdTagEnd::Table => table_ended(v),
            MdTagEnd::TableHead => match v.table {
                Some(t) => table_changed(v, TableView { in_header: false, row_is_header: false, ..row_finished(t) }),
                None => v,
            },
            MdTagEnd::TableRow => match v.table {
                Some(t) => table_changed(v, row_finished(t)),
                None => v,
            },
            MdTagEnd::TableCell => match v.table {
                Some(t) => table_changed(v, cell_finished(t)),
                None => v,
            },
            MdTagEnd::Emphasis => style_popped(v),
            MdTagEnd::Strong => style_popped(v),
            MdTagEnd::Strikethrough => style_popped(v),
            MdTagEnd::Link => link_popped(v),
            MdTagEnd::Other => v,
        },
        MdEvent::Text(t) => text_applied(v, t@),
        MdEvent::Code(c) => code_added(v, c@),
        MdEvent::Html(h) => html_applied(v, h@, false),
        MdEvent::InlineHtml(h) => html_applied(v, h@, true),
        MdEvent::SoftBreak => soft_break_added(v),
        MdEvent::HardBreak => hard_break_added(v),
        MdEvent::Rule => rule_added(v),
        MdEvent::TaskListMarker(checked) => task_marker_added(v, checked),
        MdEvent::FootnoteReference => v,
    }
}

/// Whether `w` is a state that handling event `e` in state `v` can lead to.
pub open spec fn event_step(v: WriterView, e: MdEvent, w: WriterView) -> bool {
    let p = prepared_for(v, e);
    match e {
        MdEvent::Start(MdTag::Link(dest, hash)) => w == link_pushed(p, dest@, link_local(w))
            && local_display_fits(dest@, p.cwd, opt_string(hash), link_local(w)),
        _ => w == event_applied(p, e),
    }
}

/// Whether text begins, after whitespace, with a colon.
fn text_starts_with_colon(t: &String) -> (r: bool)
    ensures
        r == starts_with_colon(t@),
{
    let chars = chars_of(t.as_str());
    proof {
        crate::text::lemma_skip_ws_bounds(chars@, 0);
    }
    let mut i: usize = 0;
    while i < chars.len() && is_whitespace_char(chars[i])
        invariant
            i <= chars@.len(),
            chars@ == t@,
            skip_ws(chars@, i as int) == skip_ws(chars@, 0),
        decreases chars@.len() - i,
    {
        i += 1;
    }
    i < chars.len() && chars[i] == ':'
}

impl MarkdownWriter {
    /// Turns a pending soft break into a new line unless `event` goes on with a colon (see
    /// [`prepared_for`]).
    pub fn prepare_for_event(&mut self, event: &MdEvent)
        ensures
            final(self)@ == prepared_for(old(self)@, *event),
    {
        if !self.pending_local_link_soft_break {
            return;
        }
        let goes_on = match event {
            MdEvent::Text(t) => text_starts_with_colon(t),
            _ => false,
        };
        self.pending_local_link_soft_break = false;
        if goes_on {
            return;
        }
        self.new_line();
    }

    /// Whether the renderer can handle `event` now (see [`event_allowed`]).
    pub fn accepts(&self, event: &MdEvent) -> (r: bool)
        ensures
            r == event_allowed(self@, *event),
    {
        match event {
            MdEvent::Start(MdTag::Item) => {
                let n = self.list_indices.len();
                n >= 1 && n <= usize::MAX / 4 && self.list_indices[n - 1] != Some(u64::MAX)
            },
            _ => true,
        }
    }

    /// Handles one parser event (see [`event_step`]).
    pub fn handle_event(&mut self, event: MdEvent)
        requires
            event_allowed(old(self)@, event),
        ensures
            event_step(old(self)@, event, final(self)@),
    {
        self.prepare_for_event(&event);
        match event {
            MdEvent::Start(tag) => self.start_tag(tag),
            MdEvent::End(tag) => self.end_tag(tag),
            MdEvent::Text(t) => self.text(t.as_str()),
            MdEvent::Code(c) => self.code(c.as_str()),
            MdEvent::Html(h) => self.html(h.as_str(), false),
            MdEvent::InlineHtml(h) => self.html(h.as_str(), true),
            MdEvent::SoftBreak => self.soft_break(),
            MdEvent::HardBreak => self.hard_break(),
            MdEvent::Rule => self.rule(),
            MdEvent::TaskListMarker(checked) => self.task_list_marker(checked),
            MdEvent::FootnoteReference => {},
        }
    }

    fn start_tag(&mut self, tag: MdTag)
        requires
            (tag matches MdTag::Item) ==> item_allowed(old(self)@),
        ensures
            match tag {
                MdTag::Link(dest, hash) => final(self)@ == link_pushed(old(self)@, dest@, link_local(final(self)@))
                    && local_display_fits(dest@, old(self)@.cwd, opt_string(hash), link_local(final(self)@)),
                _ => final(self)@ == event_applied(old(self)@, MdEvent::Start(tag)),
            },
    {
        match tag {
            MdTag::Paragraph => self.start_paragraph(),
            MdTag::Heading(level) => self.start_heading(level),
            MdTag::BlockQuote => self.start_blockquote(),
            MdTag::CodeBlock(info) => self.start_codeblock(info),
            MdTag::List(index) => self.start_list(index),
            MdTag::Item => self.start_item(),
            MdTag::Table => self.start_table(),
            MdTag::TableHead => self.start_table_head(),
            MdTag::TableRow => self.start_table_row(),
            MdTag::TableCell => self.start_table_cell(),
            MdTag::Emphasis => self.push_inline_style(StyleKind::Emphasis),
            MdTag::Strong => self.push_inline_style(StyleKind::Strong),
            MdTag::Strikethrough => self.push_inline_style(StyleKind::Strikethrough),
            MdTag::Link(dest, hash) => self.push_link(dest, hash),
            MdTag::Other => {},
        }
    }

    fn end_tag(&mut self, tag: MdTagEnd)
        ensures
            final(self)@ == event_applied(old(self)@, MdEvent::End(tag)),
    {
        match tag {
            MdTagEnd::Paragraph => self.end_paragraph(),
            MdTagEnd::Heading => self.end_heading(),
            MdTagEnd::BlockQuote => self.end_blockquote(),
            MdTagEnd::CodeBlock(highlighted) => self.end_codeblock(highlighted),
            MdTagEnd::List => self.end_list(),
            MdTagEnd::Item => self.end_item(),
            MdTagEnd::Table => self.end_table(),
            MdTagEnd::TableHead => self.end_table_head(),
            MdTagEnd::TableRow => self.end_table_row(),
            MdTagEnd::TableCell => self.end_table_cell(),
            MdTagEnd::Emphasis => self.pop_inline_style(),
            MdTagEnd::Strong => self.pop_inline_style(),
            MdTagEnd::Strikethrough => self.pop_inline_style(),
            MdTagEnd::Link => self.pop_link(),
            MdTagEnd::Other => {},
        }
    }

    /// Finishes the last line and hands out the output.
    pub fn finish(&mut self) -> (r: Vec<OutputLine>)
        ensures
            outputs_view(r@) == flushed(old(self)@.lines).output,
    {
        self.lines.flush_current_line();
        let mut out: Vec<OutputLine> = Vec::new();
        std::mem::swap(&mut out, &mut self.lines.output);
        out
    }
}

/// A line of a table cell padded to the column width (see [`pad_table_cell`]).
pub open spec fn padded(s: Seq<char>, w: nat) -> Seq<char> {
    s + spaces(
        if display_width(s) < w {
            (w - display_width(s)) as nat
        } else {
            0
        },
    )
}

/// A vertical table border.
pub open spec fn bar() -> PieceView {
    (seq!['\u{2502}'], seq![StyleKind::TableBorder])
}

/// The space between a border and a cell.
pub open spec fn gap() -> PieceView {
    (seq![' '], seq![StyleKind::TableBorder])
}

/// Line `k` of a cell's wrapped text (empty past its last line).
pub open spec fn cell_text_at(cell: Seq<Seq<char>>, k: int) -> Seq<char> {
    if 0 <= k < cell.len() {
        cell[k]
    } else {
        Seq::empty()
    }
}

/// The cells of the first `n` columns on line `k` of a table row.
pub open spec fn row_cells_line(
    cells: Seq<Seq<Seq<char>>>,
    widths: Seq<nat>,
    k: int,
    style: StyleKind,
    n: int,
) -> Seq<PieceView>
    decreases n,
{
    if n <= 0 {
        Seq::empty()
    } else {
        row_cells_line(cells, widths, k, style, n - 1) + seq![
            gap(),
            (padded(cell_text_at(cells[n - 1], k), widths[n - 1]), seq![style]),
            gap(),
            bar(),
        ]
    }
}

/// The most lines any of the first `n` cells wraps to.
pub open spec fn max_lines(cells: Seq<Seq<Seq<char>>>, n: int) -> nat
    decreases n,
{
    if n <= 0 {
        0
    } else {
        let p = max_lines(cells, n - 1);
        if cells[n - 1].len() > p {
            cells[n - 1].len()
        } else {
            p
        }
    }
}

/// How many lines a table row takes: as many as its tallest cell (one for a row without
/// cells).
pub open spec fn row_height(cells: Seq<Seq<Seq<char>>>) -> nat {
    if cells.len() == 0 {
        1
    } else {
        max_lines(cells, cells.len() as int)
    }
}

/// The lines of a table row whose cells wrap to `cells`, in `style`.
pub open spec fn row_lines(cells: Seq<Seq<Seq<char>>>, widths: Seq<nat>, style: StyleKind) -> Seq<Seq<PieceView>> {
    Seq::new(
        row_height(cells),
        |k: int| seq![bar()] + row_cells_line(cells, widths, k, style, widths.len() as int),
    )
}

/// A horizontal table border line.
pub open spec fn border_row(left: char, mid: char, right: char, widths: Seq<nat>) -> Seq<PieceView> {
    seq![(border_line(left, mid, right, widths), seq![StyleKind::TableBorder])]
}

/// The lines of the first `n` rows, a border between consecutive rows.
pub open spec fn table_rows_lines(
    headers: Seq<bool>,
    wrapped: Seq<Seq<Seq<Seq<char>>>>,
    widths: Seq<nat>,
    n: int,
) -> Seq<Seq<PieceView>>
    decreases n,
{
    if n <= 0 {
        Seq::empty()
    } else {
        let style = if headers[n - 1] {
            StyleKind::TableHeader
        } else {
            StyleKind::TableBody
        };
        let sep = if n < headers.len() {
            seq![border_row('\u{251c}', '\u{253c}', '\u{2524}', widths)]
        } else {
            Seq::empty()
        };
        table_rows_lines(headers, wrapped, widths, n - 1) + row_lines(wrapped[n - 1], widths, style)
            + sep
    }
}

/// The lines of a table: its rows (`headers` tells the header rows, `wrapped` the lines of
/// each cell) between a top and a bottom border.
pub open spec fn table_lines(headers: Seq<bool>, wrapped: Seq<Seq<Seq<Seq<char>>>>, widths: Seq<nat>) -> Seq<Seq<PieceView>> {
    seq![border_row('\u{250c}', '\u{252c}', '\u{2510}', widths)] + table_rows_lines(
        headers,
        wrapped,
        widths,
        headers.len() as int,
    ) + seq![border_row('\u{2514}', '\u{2534}', '\u{2518}', widths)]
}

/// The views of lines of pieces.
pub open spec fn lines_view(v: Seq<Vec<Piece>>) -> Seq<Seq<PieceView>> {
    v.map_values(|l: Vec<Piece>| pieces_view(l@))
}

/// The views of a row's wrapped cells.
pub open spec fn cells_view(v: Seq<Vec<String>>) -> Seq<Seq<Seq<char>>> {
    v.map_values(|c: Vec<String>| string_views(c@))
}

fn one_char_piece(c: char, style: StyleKind) -> (r: Piece)
    ensures
        r@ == (seq![c], seq![style]),
{
    let v = vec![c];
    let st = vec![style];
    assert(v@ =~= seq![c]);
    assert(st@ =~= seq![style]);
    Piece { text: string_from_chars(v.as_slice()), style: st }
}

fn border_piece_line(left: char, mid: char, right: char, widths: &[usize]) -> (r: Vec<Piece>)
    requires
        forall|i: int| 0 <= i < widths@.len() ==> widths@[i] + 2 <= usize::MAX,
    ensures
        pieces_view(r@) == border_row(left, mid, right, nats(widths@)),
{
    let text = render_table_border(left, mid, right, widths);
    let st = vec![StyleKind::TableBorder];
    assert(st@ =~= seq![StyleKind::TableBorder]);
    let piece = Piece { text, style: st };
    let ghost pv = piece@;
    let r = vec![piece];
    assert(pieces_view(r@) =~= seq![pv]);
    r
}

/// The lines of one table row (see [`row_lines`]).
fn row_piece_lines(cells: &Vec<Vec<String>>, widths: &[usize], style: StyleKind) -> (r: Vec<Vec<Piece>>)
    requires
        cells@.len() == widths@.len(),
    ensures
        lines_view(r@) == row_lines(cells_view(cells@), nats(widths@), style),
{
    let ghost cv = cells_view(cells@);
    let ghost wv = nats(widths@);
    let mut height: usize = 0;
    let mut c: usize = 0;
    while c < cells.len()
        invariant
            c <= cells@.len(),
            cv == cells_view(cells@),
            height == max_lines(cv, c as int),
        decreases cells@.len() - c,
    {
        assert(cv[c as int].len() == cells@[c as int]@.len());
        if cells[c].len() > height {
            height = cells[c].len();
        }
        c += 1;
    }
    if cells.len() == 0 {
        height = 1;
    }
    assert(height == row_height(cv));
    let mut out: Vec<Vec<Piece>> = Vec::new();
    let mut k: usize = 0;
    while k < height
        invariant
            k <= height == row_height(cv),
            cv == cells_view(cells@),
            wv == nats(widths@),
            cells@.len() == widths@.len(),
            lines_view(out@) == row_lines(cv, wv, style).subrange(0, k as int),
        decreases height - k,
    {
        let mut line: Vec<Piece> = Vec::new();
        line.push(one_char_piece('\u{2502}', StyleKind::TableBorder));
        assert(pieces_view(line@) =~= seq![bar()] + row_cells_line(cv, wv, k as int, style, 0));
        let mut j: usize = 0;
        while j < widths.len()
            invariant
                j <= widths@.len() == cells@.len(),
                cv == cells_view(cells@),
                wv == nats(widths@),
                pieces_view(line@) == seq![bar()] + row_cells_line(cv, wv, k as int, style, j as int),
            decreases widths@.len() - j,
        {
            let cell = &cells[j];
            let text: &str = if k < cell.len() {
                cell[k].as_str()
            } else {
                ""
            };
            proof {
                reveal_strlit("");
            }
            assert(text@ == cell_text_at(cv[j as int], k as int)) by {
                assert(cell@ == cells@[j as int]@);
                assert(cv[j as int] == string_views(cell@));
                if k < cell@.len() {
                    assert(string_views(cell@)[k as int] == cell@[k as int]@);
                } else {
                    assert(""@ =~= Seq::<char>::empty());
                }
            }
            let padded_text = pad_table_cell(text, widths[j]);
            let st = vec![style];
            assert(st@ =~= seq![style]);
            let ghost before = pieces_view(line@);
            let p1 = one_char_piece(' ', StyleKind::TableBorder);
            let p2 = Piece { text: padded_text, style: st };
            let p3 = one_char_piece(' ', StyleKind::TableBorder);
            let p4 = one_char_piece('\u{2502}', StyleKind::TableBorder);
            let ghost add = seq![p1@, p2@, p3@, p4@];
            assert(p2@ == (padded(cell_text_at(cv[j as int], k as int), wv[j as int]), seq![style]));
            line.push(p1);
            line.push(p2);
            line.push(p3);
            line.push(p4);
            assert(pieces_view(line@) =~= before + add);
            assert(seq![bar()] + row_cells_line(cv, wv, k as int, style, j + 1) =~= seq![bar()]
                + row_cells_line(cv, wv, k as int, style, j as int) + add);
            j += 1;
        }
        let ghost lv = pieces_view(line@);
        let ghost prev = out@;
        assert(lv == row_lines(cv, wv, style)[k as int]);
        out.push(line);
        assert(out@ == prev.push(line));
        assert(lines_view(out@) =~= lines_view(prev).push(lv));
        assert(lines_view(out@) =~= row_lines(cv, wv, style).subrange(0, k + 1));
        k += 1;
    }
    assert(row_lines(cv, wv, style).subrange(0, height as int) =~= row_lines(cv, wv, style));
    out
}

/// The lines of a table (see [`table_lines`]): `rows` are its rows as read, `widths` the
/// column widths, and `wrapped` the lines that each cell of each row wraps to at its column
/// width. A table without rows or columns takes no lines.
pub fn render_table(
    rows: &Vec<(bool, Vec<String>)>,
    widths: &[usize],
    wrapped: &Vec<Vec<Vec<String>>>,
) -> (r: Vec<Vec<Piece>>)
    requires
        wrapped@.len() == rows@.len(),
        forall|i: int| 0 <= i < wrapped@.len() ==> #[trigger] wrapped@[i]@.len() == widths@.len(),
        forall|i: int| 0 <= i < widths@.len() ==> widths@[i] + 2 <= usize::MAX,
    ensures
        lines_view(r@) == if rows@.len() == 0 || widths@.len() == 0 {
            Seq::empty()
        } else {
            table_lines(
                rows@.map_values(|r: (bool, Vec<String>)| r.0),
                wrapped@.map_values(|c: Vec<Vec<String>>| cells_view(c@)),
                nats(widths@),
            )
        },
{
    let ghost headers = rows@.map_values(|r: (bool, Vec<String>)| r.0);
    let ghost wv = wrapped@.map_values(|c: Vec<Vec<String>>| cells_view(c@));
    let ghost ws = nats(widths@);
    if rows.len() == 0 || widths.len() == 0 {
        let r: Vec<Vec<Piece>> = Vec::new();
        assert(lines_view(r@) =~= Seq::<Seq<PieceView>>::empty());
        return r;
    }
    let mut out: Vec<Vec<Piece>> = Vec::new();
    out.push(border_piece_line('\u{250c}', '\u{252c}', '\u{2510}', widths));
    assert(lines_view(out@) =~= seq![border_row('\u{250c}', '\u{252c}', '\u{2510}', ws)] + table_rows_lines(headers, wv, ws, 0));
    let n = rows.len();
    let mut i: usize = 0;
    while i < n
        invariant
            i <= n == rows@.len() == wrapped@.len() == headers.len() == wv.len(),
            headers == rows@.map_values(|r: (bool, Vec<String>)| r.0),
            wv == wrapped@.map_values(|c: Vec<Vec<String>>| cells_view(c@)),
            ws == nats(widths@),
            forall|a: int| 0 <= a < wrapped@.len() ==> #[trigger] wrapped@[a]@.len() == widths@.len(),
            forall|a: int| 0 <= a < widths@.len() ==> widths@[a] + 2 <= usize::MAX,
            lines_view(out@) == seq![border_row('\u{250c}', '\u{252c}', '\u{2510}', ws)] + table_rows_lines(headers, wv, ws, i as int),
        decreases n - i,
    {
        let ghost before = lines_view(out@);
        let style = if rows[i].0 {
            StyleKind::TableHeader
        } else {
            StyleKind::TableBody
        };
        assert(headers[i as int] == rows@[i as int].0);
        let row = row_piece_lines(&wrapped[i], widths, style);
        assert(wv[i as int] == cells_view(wrapped@[i as int]@));
        let ghost rl = lines_view(row@);
        let mut row = row;
        let mut j: usize = 0;
        let m = row.len();
        let ghost rows_seq = row@;
        while j < m
            invariant
                j <= m == rows_seq.len(),
                row@ == rows_seq.subrange(j as int, m as int),
                rl == lines_view(rows_seq),
                lines_view(out@) == before + rl.subrange(0, j as int),
            decreases m - j,
        {
            let line = row.remove(0);
            assert(line == rows_seq[j as int]);
            assert(row@ =~= rows_seq.subrange(j + 1, m as int));
            let ghost prev = out@;
            let ghost lv = pieces_view(line@);
            assert(rl[j as int] == lv);
            out.push(line);
            assert(out@ == prev.push(line));
            assert(lines_view(out@) =~= lines_view(prev).push(lv));
            assert(lines_view(out@) =~= before + rl.subrange(0, j + 1));
            j += 1;
        }
        assert(rl.subrange(0, m as int) =~= rl);
        if i + 1 < n {
            let ghost mid_before = lines_view(out@);
            let b = border_piece_line('\u{251c}', '\u{253c}', '\u{2524}', widths);
            let ghost bv = pieces_view(b@);
            out.push(b);
            assert(lines_view(out@) =~= mid_before.push(bv));
        }
        assert(lines_view(out@) =~= seq![border_row('\u{250c}', '\u{252c}', '\u{2510}', ws)] + table_rows_lines(headers, wv, ws, i + 1));
        i += 1;
    }
    let ghost last_before = lines_view(out@);
    let b = border_piece_line('\u{2514}', '\u{2534}', '\u{2518}', widths);
    let ghost bv = pieces_view(b@);
    out.push(b);
    assert(lines_view(out@) =~= last_before.push(bv));
    out
}

/// Whether the lines finished in `v` are still the first lines finished in `w`.
pub open spec fn keeps_output(v: WriterView, w: WriterView) -> bool {
    let a = v.lines.output;
    let b = w.lines.output;
    a.len() <= b.len() && b.subrange(0, a.len() as int) == a
}

pub proof fn lemma_keeps_output_trans(u: WriterView, v: WriterView, w: WriterView)
    requires
        keeps_output(u, v),
        keeps_output(v, w),
    ensures
        keeps_output(u, w),
{
    let a = u.lines.output;
    let b = v.lines.output;
    let c = w.lines.output;
    assert(c.subrange(0, a.len() as int) =~= c.subrange(0, b.len() as int).subrange(0, a.len() as int));
}

pub proof fn lemma_keeps_output_refl(v: WriterView)
    ensures
        keeps_output(v, v),
{
    assert(v.lines.output.subrange(0, v.lines.output.len() as int) =~= v.lines.output);
}

pub proof fn lemma_assembler_steps_keep_output(v: WriterView, content: Seq<PieceView>, style: Seq<StyleKind>, piece: PieceView)
    ensures
        keeps_output(v, WriterView { lines: flushed(v.lines), ..v }),
        keeps_output(v, WriterView { lines: line_pushed(v.lines, content, style), ..v }),
        keeps_output(v, new_line(v)),
        keeps_output(v, with_span(v, piece)),
        keeps_output(v, with_blank(v)),
{
    let o = v.lines.output;
    lemma_keeps_output_refl(v);
    match v.lines.current {
        Some(c) => {
            let f = flushed(v.lines);
            assert(f.output.subrange(0, o.len() as int) =~= o);
        },
        None => {},
    }
    let f = flushed(v.lines);
    let fv = WriterView { lines: f, ..v };
    let lp = line_pushed(f, Seq::empty(), Seq::empty());
    let lpv = WriterView { lines: lp, ..v };
    assert(lp.output == f.output);
    assert(flushed(lp).output.subrange(0, f.output.len() as int) =~= f.output);
    assert(keeps_output(lpv, WriterView { lines: flushed(lp), ..v }));
    lemma_keeps_output_trans(v, fv, WriterView { lines: flushed(lp), ..v });
    if forall|i: int| 0 <= i < f.frames.len() ==> #[trigger] f.frames[i].2 {
        let pushed = f.output.push(OutputView::Plain(Seq::empty(), Seq::empty()));
        assert(pushed.subrange(0, f.output.len() as int) =~= f.output);
        lemma_keeps_output_trans(
            v,
            fv,
            WriterView { lines: AssemblerView { output: pushed, ..f }, ..v },
        );
    }
}

pub proof fn lemma_spans_keep_output(v: WriterView, pieces: Seq<PieceView>)
    ensures
        keeps_output(v, spans_pushed(v, pieces)),
    decreases pieces.len(),
{
    if pieces.len() == 0 {
        lemma_keeps_output_refl(v);
    } else {
        let p = spans_pushed(v, pieces.drop_last());
        lemma_spans_keep_output(v, pieces.drop_last());
        lemma_assembler_steps_keep_output(p, Seq::empty(), Seq::empty(), pieces.last());
        lemma_keeps_output_trans(v, p, with_span(p, pieces.last()));
    }
}

pub proof fn lemma_text_line_keeps_output(v: WriterView, line: Seq<char>, i: int)
    ensures
        keeps_output(v, text_line_applied(v, line, i)),
{
    let v1 = if v.needs_newline {
        WriterView { needs_newline: false, ..new_line(v) }
    } else {
        v
    };
    lemma_assembler_steps_keep_output(v, Seq::empty(), Seq::empty(), (Seq::empty(), Seq::empty()));
    lemma_keeps_output_refl(v);
    assert(keeps_output(v, v1));
    let v2 = if i > 0 {
        new_line(v1)
    } else {
        v1
    };
    lemma_assembler_steps_keep_output(v1, Seq::empty(), Seq::empty(), (Seq::empty(), Seq::empty()));
    lemma_keeps_output_refl(v1);
    lemma_keeps_output_trans(v, v1, v2);
    let l = list_lead(line, v2.pending_lead, v2.inline_styles.len() == 0);
    let b = base_style(v2);
    let a1 = match l.0 {
        Some(x) => with_span(v2, (x, b)),
        None => v2,
    };
    lemma_assembler_steps_keep_output(v2, Seq::empty(), Seq::empty(), (l.0.unwrap_or(Seq::empty()), b));
    lemma_keeps_output_refl(v2);
    lemma_keeps_output_trans(v, v2, a1);
    let a2 = match l.1 {
        Some(x) => with_span(a1, (x, seq![StyleKind::Strong])),
        None => a1,
    };
    lemma_assembler_steps_keep_output(a1, Seq::empty(), Seq::empty(), (l.1.unwrap_or(Seq::empty()), seq![StyleKind::Strong]));
    lemma_keeps_output_refl(a1);
    lemma_keeps_output_trans(v, a1, a2);
    let a3 = match l.2 {
        Some(x) => with_span(a2, (x, b)),
        None => a2,
    };
    lemma_assembler_steps_keep_output(a2, Seq::empty(), Seq::empty(), (l.2.unwrap_or(Seq::empty()), b));
    lemma_keeps_output_refl(a2);
    lemma_keeps_output_trans(v, a2, a3);
    let la = lead_applied(v2, line);
    assert(la.lines == a3.lines);
    if !lead_rendered(v2, line) {
        let m = math_line(line, la.in_math_block);
        lemma_spans_keep_output(la, math_styled(m.0, base_style(la)));
        lemma_keeps_output_trans(v, la, spans_pushed(la, math_styled(m.0, base_style(la))));
    }
}

pub proof fn lemma_text_lines_keep_output(v: WriterView, lines: Seq<Seq<char>>, k: int)
    ensures
        keeps_output(v, text_lines_applied(v, lines, k)),
    decreases k,
{
    if k <= 0 {
        lemma_keeps_output_refl(v);
    } else {
        let p = text_lines_applied(v, lines, k - 1);
        lemma_text_lines_keep_output(v, lines, k - 1);
        lemma_text_line_keeps_output(p, lines[k - 1], k - 1);
        lemma_keeps_output_trans(v, p, text_line_applied(p, lines[k - 1], k - 1));
    }
}

pub proof fn lemma_html_lines_keep_output(v: WriterView, lines: Seq<Seq<char>>, k: int, style: Seq<StyleKind>)
    ensures
        keeps_output(v, html_lines_applied(v, lines, k, style)),
    decreases k,
{
    if k <= 0 {
        lemma_keeps_output_refl(v);
    } else {
        let p = html_lines_applied(v, lines, k - 1, style);
        lemma_html_lines_keep_output(v, lines, k - 1, style);
        let line = lines[k - 1];
        let v1 = if p.needs_newline {
            WriterView { needs_newline: false, ..new_line(p) }
        } else {
            p
        };
        lemma_assembler_steps_keep_output(p, Seq::empty(), Seq::empty(), (line, style));
        lemma_keeps_output_refl(p);
        let v2 = if k - 1 > 0 {
            new_line(v1)
        } else {
            v1
        };
        lemma_assembler_steps_keep_output(v1, Seq::empty(), Seq::empty(), (line, style));
        lemma_keeps_output_refl(v1);
        lemma_keeps_output_trans(p, v1, v2);
        lemma_assembler_steps_keep_output(v2, Seq::empty(), Seq::empty(), (line, style));
        lemma_keeps_output_trans(p, v2, with_span(v2, (line, style)));
        lemma_keeps_output_trans(v, p, html_lines_applied(v, lines, k, style));
    }
}

pub proof fn lemma_highlighted_keeps_output(v: WriterView, hl: Seq<Seq<PieceView>>, k: int)
    ensures
        keeps_output(v, highlighted_applied(v, hl, k)),
    decreases k,
{
    if k <= 0 {
        lemma_keeps_output_refl(v);
    } else {
        let p = highlighted_applied(v, hl, k - 1);
        lemma_highlighted_keeps_output(v, hl, k - 1);
        lemma_assembler_steps_keep_output(p, Seq::empty(), Seq::empty(), (Seq::empty(), Seq::empty()));
        lemma_spans_keep_output(new_line(p), hl[k - 1]);
        lemma_keeps_output_trans(p, new_line(p), highlighted_applied(v, hl, k));
        lemma_keeps_output_trans(v, p, highlighted_applied(v, hl, k));
    }
}

pub proof fn lemma_same_output(v: WriterView, w: WriterView)
    requires
        v.lines.output == w.lines.output,
    ensures
        keeps_output(v, w),
{
    lemma_keeps_output_refl(v);
}

/// `w` keeps the output of `v` when it is `v` or a new line or a blank line after it.
pub proof fn lemma_maybe_line(v: WriterView, w: WriterView, which: int)
    requires
        which == 0 ==> w.lines.output == v.lines.output,
        which == 1 ==> w.lines == new_line(v).lines,
        which == 2 ==> w.lines == with_blank(v).lines,
        which == 3 ==> w.lines == flushed(v.lines),
        0 <= which <= 3,
    ensures
        keeps_output(v, w),
{
    lemma_assembler_steps_keep_output(v, Seq::empty(), Seq::empty(), (Seq::empty(), Seq::empty()));
    lemma_keeps_output_refl(v);
}

pub proof fn lemma_text_keeps_output(v: WriterView, t: Seq<char>)
    ensures
        keeps_output(v, text_applied(v, t)),
{
    if v.table is Some || suppressing_label(v) {
        lemma_same_output(v, text_applied(v, t));
    } else {
        let v1 = link_end_cleared(v);
        let v3 = text_prelude(v);
        if v1.lines.pending_marker_line {
            lemma_maybe_line(v1, v3, 1);
        } else {
            lemma_maybe_line(v1, v3, 0);
        }
        lemma_same_output(v, v1);
        lemma_keeps_output_trans(v, v1, v3);
        if v3.lines.in_code_block && v3.code_lang is Some {
            lemma_same_output(v3, text_body(v3, t));
        } else {
            let v4 = if v3.lines.in_code_block && !v3.needs_newline && line_has_content(v3) {
                new_line(v3)
            } else {
                v3
            };
            if v3.lines.in_code_block && !v3.needs_newline && line_has_content(v3) {
                lemma_maybe_line(v3, v4, 1);
            } else {
                lemma_maybe_line(v3, v4, 0);
            }
            let ls = lines_of(t);
            lemma_text_lines_keep_output(v4, ls, ls.len() as int);
            lemma_keeps_output_trans(v3, v4, text_lines_applied(v4, ls, ls.len() as int));
            lemma_same_output(
                text_lines_applied(v4, ls, ls.len() as int),
                text_body(v3, t),
            );
            lemma_keeps_output_trans(v3, text_lines_applied(v4, ls, ls.len() as int), text_body(v3, t));
        }
        lemma_keeps_output_trans(v, v3, text_applied(v, t));
    }
}

pub proof fn lemma_link_popped_keeps_output(v: WriterView)
    ensures
        keeps_output(v, link_popped(v)),
{
    let v1 = style_popped(v);
    lemma_same_output(v, v1);
    match v.link {
        None => {},
        Some(l) => {
            let v2 = WriterView { link: None, ..v1 };
            lemma_same_output(v, v2);
            if v2.table is Some {
                lemma_same_output(v, link_popped(v));
            } else if l.show_destination {
                let ps = seq![
                    (seq![' ', '('], Seq::<StyleKind>::empty()),
                    (l.destination, seq![StyleKind::LinkDestination]),
                    (seq![')'], Seq::<StyleKind>::empty()),
                ];
                lemma_spans_keep_output(v2, ps);
                lemma_keeps_output_trans(v, v2, link_popped(v));
            } else {
                match l.local_display {
                    Some(d) => {
                        let v3 = if v2.lines.pending_marker_line {
                            new_line(v2)
                        } else {
                            v2
                        };
                        if v2.lines.pending_marker_line {
                            lemma_maybe_line(v2, v3, 1);
                        } else {
                            lemma_maybe_line(v2, v3, 0);
                        }
                        let outer = if v3.inline_styles.len() > 0 {
                            v3.inline_styles.last()
                        } else {
                            Seq::empty()
                        };
                        let v4 = with_span(v3, (d, outer.push(StyleKind::Code)));
                        lemma_assembler_steps_keep_output(v3, Seq::empty(), Seq::empty(), (d, outer.push(StyleKind::Code)));
                        lemma_keeps_output_trans(v2, v3, v4);
                        lemma_same_output(v4, link_popped(v));
                        lemma_keeps_output_trans(v2, v4, link_popped(v));
                        lemma_keeps_output_trans(v, v2, link_popped(v));
                    },
                    None => {},
                }
            }
        },
    }
}

pub proof fn lemma_code_block_ended_keeps_output(v: WriterView, hl: Seq<Seq<PieceView>>)
    ensures
        keeps_output(v, code_block_ended(v, hl)),
{
    let v1 = kept_code_shown(v, hl);
    match v.code_lang {
        Some(_) => {
            let v0 = WriterView { code_lang: None, code_buffer: Seq::empty(), ..v };
            lemma_same_output(v, v0);
            if v.code_buffer.len() > 0 {
                lemma_highlighted_keeps_output(v0, hl, hl.len() as int);
                lemma_keeps_output_trans(v, v0, v1);
            }
        },
        None => {
            lemma_keeps_output_refl(v);
        },
    }
    lemma_same_output(v1, code_block_ended(v, hl));
    lemma_keeps_output_trans(v, v1, code_block_ended(v, hl));
}

pub proof fn lemma_blank_then(v: WriterView, cond: bool) -> (w: WriterView)
    ensures
        w == (if cond {
            with_blank(v)
        } else {
            v
        }),
        keeps_output(v, w),
{
    let w = if cond {
        with_blank(v)
    } else {
        v
    };
    if cond {
        lemma_maybe_line(v, w, 2);
    } else {
        lemma_keeps_output_refl(v);
    }
    w
}

pub proof fn lemma_start_keeps_output(v: WriterView, tag: MdTag)
    ensures
        keeps_output(v, event_applied(v, MdEvent::Start(tag))),
{
    let w = event_applied(v, MdEvent::Start(tag));
    lemma_assembler_steps_keep_output(v, Seq::empty(), Seq::empty(), (Seq::empty(), Seq::empty()));
    lemma_keeps_output_refl(v);
    match tag {
        MdTag::Paragraph => {
            let v1 = lemma_blank_then(v, v.needs_newline);
            lemma_maybe_line(v1, new_line(v1), 1);
            lemma_keeps_output_trans(v, v1, new_line(v1));
            lemma_same_output(new_line(v1), w);
            lemma_keeps_output_trans(v, new_line(v1), w);
        },
        MdTag::Heading(level) => {
            let v1 = if v.needs_newline {
                WriterView { needs_newline: false, ..new_line(v) }
            } else {
                v
            };
            let content = seq![(heading_marker(level), seq![StyleKind::Heading(level)])];
            let v2 = WriterView { lines: line_pushed(v1.lines, content, Seq::empty()), ..v1 };
            lemma_assembler_steps_keep_output(v1, content, Seq::empty(), (Seq::empty(), Seq::empty()));
            lemma_keeps_output_trans(v, v1, v2);
            lemma_same_output(v2, w);
            lemma_keeps_output_trans(v, v2, w);
        },
        MdTag::BlockQuote => {
            let v1 = if v.needs_newline {
                WriterView { needs_newline: false, ..with_blank(v) }
            } else {
                v
            };
            lemma_same_output(v1, w);
            lemma_keeps_output_trans(v, v1, w);
        },
        MdTag::CodeBlock(info) => {
            let v1 = WriterView { lines: flushed(v.lines), ..v };
            let v2 = lemma_blank_then(v1, v1.lines.output.len() > 0);
            lemma_keeps_output_trans(v, v1, v2);
            lemma_same_output(v2, w);
            lemma_keeps_output_trans(v, v2, w);
        },
        MdTag::List(_) => {},
        MdTag::Item => {},
        MdTag::Table => {
            let v1 = WriterView { lines: flushed(v.lines), ..v };
            let v2 = lemma_blank_then(v1, v1.lines.output.len() > 0);
            lemma_keeps_output_trans(v, v1, v2);
            lemma_same_output(v2, w);
            lemma_keeps_output_trans(v, v2, w);
        },
        _ => {},
    }
}

pub proof fn lemma_end_keeps_output(v: WriterView, tag: MdTagEnd)
    ensures
        keeps_output(v, event_applied(v, MdEvent::End(tag))),
{
    let w = event_applied(v, MdEvent::End(tag));
    lemma_assembler_steps_keep_output(v, Seq::empty(), Seq::empty(), (Seq::empty(), Seq::empty()));
    lemma_keeps_output_refl(v);
    match tag {
        MdTagEnd::CodeBlock(hl) => lemma_code_block_ended_keeps_output(v, highlighted_view(hl@)),
        MdTagEnd::Table => {
            match v.table {
                Some(t) => {
                    let f = flushed(v.lines);
                    let pushed = f.output.push(OutputView::Table(t.rows));
                    assert(pushed.subrange(0, f.output.len() as int) =~= f.output);
                    lemma_keeps_output_trans(v, WriterView { lines: f, ..v }, w);
                },
                None => {},
            }
        },
        MdTagEnd::Link => lemma_link_popped_keeps_output(v),
        MdTagEnd::Item => {},
        _ => {},
    }
}

pub proof fn lemma_event_keeps_output(v: WriterView, e: MdEvent)
    ensures
        keeps_output(v, event_applied(v, e)),
{
    let w = event_applied(v, e);
    lemma_assembler_steps_keep_output(v, Seq::empty(), Seq::empty(), (Seq::empty(), Seq::empty()));
    lemma_keeps_output_refl(v);
    match e {
        MdEvent::Start(tag) => lemma_start_keeps_output(v, tag),
        MdEvent::End(tag) => lemma_end_keeps_output(v, tag),
        MdEvent::Text(t) => lemma_text_keeps_output(v, t@),
        MdEvent::Code(c) => {
            if v.table is None && !suppressing_label(v) {
                let v1 = link_end_cleared(v);
                let v2 = if v1.lines.pending_marker_line {
                    new_line(v1)
                } else {
                    v1
                };
                if v1.lines.pending_marker_line {
                    lemma_maybe_line(v1, v2, 1);
                } else {
                    lemma_maybe_line(v1, v2, 0);
                }
                lemma_same_output(v, v1);
                lemma_keeps_output_trans(v, v1, v2);
                lemma_assembler_steps_keep_output(v2, Seq::empty(), Seq::empty(), (c@, seq![StyleKind::Code]));
                lemma_keeps_output_trans(v, v2, w);
            }
        },
        MdEvent::Html(h) => {
            if v.table is None && !suppressing_label(v) {
                let v1 = WriterView {
                    lines: AssemblerView { ends_with_link: false, pending_marker_line: false, ..v.lines },
                    ..v
                };
                let ls = lines_of(h@);
                lemma_same_output(v, v1);
                lemma_html_lines_keep_output(v1, ls, ls.len() as int, base_style(v1));
                lemma_keeps_output_trans(v, v1, html_lines_applied(v1, ls, ls.len() as int, base_style(v1)));
            }
        },
        MdEvent::InlineHtml(h) => {
            if v.table is None && !suppressing_label(v) {
                let v1 = WriterView {
                    lines: AssemblerView { ends_with_link: false, pending_marker_line: false, ..v.lines },
                    ..v
                };
                let ls = lines_of(h@);
                lemma_same_output(v, v1);
                lemma_html_lines_keep_output(v1, ls, ls.len() as int, base_style(v1));
                lemma_keeps_output_trans(v, v1, html_lines_applied(v1, ls, ls.len() as int, base_style(v1)));
            }
        },
        MdEvent::SoftBreak => {
            lemma_assembler_steps_keep_output(link_end_cleared(v), Seq::empty(), Seq::empty(), (Seq::empty(), Seq::empty()));
            lemma_same_output(v, link_end_cleared(v));
            lemma_keeps_output_trans(v, link_end_cleared(v), new_line(link_end_cleared(v)));
        },
        MdEvent::HardBreak => {
            lemma_assembler_steps_keep_output(link_end_cleared(v), Seq::empty(), Seq::empty(), (Seq::empty(), Seq::empty()));
            lemma_same_output(v, link_end_cleared(v));
            lemma_keeps_output_trans(v, link_end_cleared(v), new_line(link_end_cleared(v)));
        },
        MdEvent::Rule => {
            if v.table is None {
                let v1 = WriterView { lines: flushed(v.lines), ..v };
                let v2 = lemma_blank_then(v1, v1.lines.output.len() > 0);
                lemma_keeps_output_trans(v, v1, v2);
                let content = seq![(seq!['-', '-', '-'], seq![StyleKind::Accent])];
                let v3 = WriterView { lines: line_pushed(v2.lines, content, Seq::empty()), ..v2 };
                lemma_assembler_steps_keep_output(v2, content, Seq::empty(), (Seq::empty(), Seq::empty()));
                lemma_keeps_output_trans(v, v2, v3);
                lemma_same_output(v3, w);
                lemma_keeps_output_trans(v, v3, w);
            }
        },
        MdEvent::TaskListMarker(checked) => {
            if v.table is None {
                let v1 = if v.lines.pending_marker_line {
                    new_line(v)
                } else {
                    v
                };
                lemma_assembler_steps_keep_output(v1, Seq::empty(), Seq::empty(), (task_marker(checked), seq![StyleKind::Strong]));
                lemma_keeps_output_trans(v, v1, w);
            }
        },
        MdEvent::FootnoteReference => {},
    }
}

/// Lines once finished are never changed: whatever event the renderer handles, the lines it
/// had finished stay, in order, at the start of its output.
pub proof fn rendered_lines_are_never_rewritten(v: WriterView, e: MdEvent, w: WriterView)
    requires
        event_step(v, e, w),
    ensures
        keeps_output(v, w),
{
    let p = prepared_for(v, e);
    lemma_assembler_steps_keep_output(v, Seq::empty(), Seq::empty(), (Seq::empty(), Seq::empty()));
    lemma_keeps_output_refl(v);
    assert(keeps_output(v, p)) by {
        if v.pending_soft_break {
            lemma_same_output(WriterView { pending_soft_break: false, ..v }, v);
            lemma_assembler_steps_keep_output(WriterView { pending_soft_break: false, ..v }, Seq::empty(), Seq::empty(), (Seq::empty(), Seq::empty()));
        }
    }
    match e {
        MdEvent::Start(MdTag::Link(dest, hash)) => {
            lemma_same_output(p, w);
        },
        _ => {
            lemma_event_keeps_output(p, e);
        },
    }
    lemma_keeps_output_trans(v, p, w);
}


proof fn lemma_max_lines(cells: Seq<Seq<Seq<char>>>, n: int)
    requires
        0 <= n <= cells.len(),
    ensures
        forall|j: int| 0 <= j < n ==> max_lines(cells, n) >= #[trigger] cells[j].len(),
        n > 0 ==> exists|j: int| 0 <= j < n && max_lines(cells, n) == #[trigger] cells[j].len(),
    decreases n,
{
    if n > 0 {
        lemma_max_lines(cells, n - 1);
        if cells[n - 1].len() > max_lines(cells, n - 1) || n == 1 {
            assert(max_lines(cells, n) == cells[n - 1].len());
        } else {
            let j0 = choose|j: int| 0 <= j < n - 1 && max_lines(cells, n - 1) == #[trigger] cells[j].len();
            assert(max_lines(cells, n) == cells[j0].len());
        }
    }
}

proof fn lemma_row_cells_line(
    cells: Seq<Seq<Seq<char>>>,
    widths: Seq<nat>,
    k: int,
    style: StyleKind,
    n: int,
)
    requires
        0 <= n,
    ensures
        row_cells_line(cells, widths, k, style, n).len() == 4 * n,
        forall|j: int|
            0 <= j < n ==> #[trigger] row_cells_line(cells, widths, k, style, n)[4 * j + 1] == (
                padded(cell_text_at(cells[j], k), widths[j]),
                seq![style],
            ),
    decreases n,
{
    if n > 0 {
        lemma_row_cells_line(cells, widths, k, style, n - 1);
        let prev = row_cells_line(cells, widths, k, style, n - 1);
        assert forall|j: int| 0 <= j < n implies #[trigger] row_cells_line(cells, widths, k, style, n)[4
            * j + 1] == (padded(cell_text_at(cells[j], k), widths[j]), seq![style]) by {
            if j < n - 1 {
                assert(row_cells_line(cells, widths, k, style, n)[4 * j + 1] == prev[4 * j + 1]);
            }
        }
    }
}

/// A table row shows every line of every cell: it is as tall as its tallest cell (one line
/// for a row without cells), and line `k` of cell `j` stands, padded to the column width, in
/// the `j`-th cell slot of the row's line `k`.
pub proof fn table_rows_show_every_cell_line(
    cells: Seq<Seq<Seq<char>>>,
    widths: Seq<nat>,
    style: StyleKind,
)
    requires
        widths.len() == cells.len(),
    ensures
        forall|j: int| 0 <= j < cells.len() ==> row_lines(cells, widths, style).len() >= #[trigger] cells[j].len(),
        cells.len() > 0 ==> exists|j: int|
            0 <= j < cells.len() && row_lines(cells, widths, style).len() == #[trigger] cells[j].len(),
        cells.len() == 0 ==> row_lines(cells, widths, style).len() == 1,
        forall|j: int, k: int|
            0 <= j < cells.len() && 0 <= k < cells[j].len() ==> row_lines(cells, widths, style)[k][4 * j
                + 2] == (padded(#[trigger] cells[j][k], widths[j]), seq![style]),
{
    lemma_max_lines(cells, cells.len() as int);
    assert forall|j: int, k: int|
        0 <= j < cells.len() && 0 <= k < cells[j].len() implies row_lines(cells, widths, style)[k][4 * j
            + 2] == (padded(#[trigger] cells[j][k], widths[j]), seq![style]) by {
        lemma_row_cells_line(cells, widths, k, style, widths.len() as int);
        assert(cells[j].len() <= row_height(cells));
        let line = row_lines(cells, widths, style)[k];
        let rc = row_cells_line(cells, widths, k, style, widths.len() as int);
        assert(line == seq![bar()] + rc);
        assert(line[4 * j + 2] == rc[4 * j + 1]);
    }
}

/// A task list marker shows the item's state: `[x] ` for a checked task and `[ ] ` for an
/// open one, so the two differ; outside tables it is added in the strong style.
pub proof fn task_markers_show_their_state(v: WriterView, checked: bool)
    ensures
        task_marker(checked) == if checked {
            seq!['[', 'x', ']', ' ']
        } else {
            seq!['[', ' ', ']', ' ']
        },
        task_marker(true) != task_marker(false),
        event_applied(v, MdEvent::TaskListMarker(checked)) == task_marker_added(v, checked),
        v.table is None ==> task_marker_added(v, checked) == with_span(
            if v.lines.pending_marker_line {
                new_line(v)
            } else {
                v
            },
            (
                if checked {
                    seq!['[', 'x', ']', ' ']
                } else {
                    seq!['[', ' ', ']', ' ']
                },
                seq![StyleKind::Strong],
            ),
        ),
{
    assert(task_marker(true)[1] != task_marker(false)[1]);
}


/// A heading of level `l` is marked by `l` hashes and a space.
pub proof fn headings_are_marked_by_their_level(l: u8)
    ensures
        heading_marker(l).len() == l + 1,
        forall|j: int| 0 <= j < l ==> heading_marker(l)[j] == '#',
        heading_marker(l)[l as int] == ' ',
{
}

/// A bulleted item at nesting `depth` is marked `- ` after three spaces per enclosing list,
/// and its continuation lines are indented by the marker's width; a numbered item's marker is
/// its number followed by `. `, right-aligned so that markers of one list line up.
pub proof fn list_items_show_their_marker(depth: nat, index: Option<u64>)
    requires
        depth >= 1,
    ensures
        index is None ==> item_marker(depth, index) == Seq::new((4 * depth - 4) as nat, |_j: int| ' ')
            + seq!['-', ' '],
        index is None ==> item_indent(depth, index) == item_marker(depth, index).len(),
        index matches Some(i) ==> item_marker(depth, index).subrange(
            item_marker(depth, index).len() - 2,
            item_marker(depth, index).len() as int,
        ) == seq!['.', ' '],
        index matches Some(i) ==> item_marker(depth, index).subrange(
            item_marker(depth, index).len() - 2 - decimal(i as nat).len(),
            item_marker(depth, index).len() - 2,
        ) == decimal(i as nat),
        index matches Some(i) ==> item_marker(depth, index).len() >= 4 * depth - 1,
        index matches Some(i) ==> forall|j: int|
            0 <= j < item_marker(depth, index).len() - 2 - decimal(i as nat).len() ==> #[trigger] item_marker(
                depth,
                index,
            )[j] == ' ',
{
    let w = marker_width(depth);
    match index {
        None => {
            assert(spaces((w - 1) as nat) =~= Seq::new((4 * depth - 4) as nat, |_j: int| ' '));
        },
        Some(i) => {
            let d = decimal(i as nat);
            let m = item_marker(depth, index);
            let p = pad_left(d, w as nat);
            assert(m == p + seq!['.', ' ']);
            assert(m.subrange(m.len() - 2, m.len() as int) =~= seq!['.', ' ']);
            assert(p.subrange(p.len() - d.len(), p.len() as int) =~= d);
            assert(m.subrange(m.len() - 2 - d.len(), m.len() - 2) =~= p.subrange(
                p.len() - d.len(),
                p.len() as int,
            ));
        },
    }
}

/// Starting an item counts a numbered list on by one and leaves a bulleted list bulleted;
/// the enclosing lists keep their numbers.
pub proof fn numbered_items_count_on(v: WriterView)
    requires
        v.list_indices.len() >= 1,
    ensures
        item_started(v).list_indices.len() == v.list_indices.len(),
        v.list_indices.last() matches Some(i) ==> item_started(v).list_indices.last() == Some(
            (i + 1) as u64,
        ),
        v.list_indices.last() is None ==> item_started(v).list_indices.last() is None,
        forall|j: int|
            0 <= j < v.list_indices.len() - 1 ==> #[trigger] item_started(v).list_indices[j]
                == v.list_indices[j],
{
}

} // verus!
