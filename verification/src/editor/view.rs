//! The view: which lines are visible, how they are cut to the width, and
//! when a frame is drawn at all.

use super::terminal::{line_ops, move_op, move_caret_to, print, print_line, Op, Position, Size, Surface};
use buffer::Buffer;
use vstd::prelude::*;
use vstd::string::*;
use vstd::view::View as _;

pub mod buffer;

verus! {

/// The program's name, as the welcome banner shows it.
pub const NAME: &'static str = "termview";

/// The program's version, as the welcome banner shows it.
pub const VERSION: &'static str = "0.1.0";

/// What a view is: its lines, the size it last heard of, and whether the
/// screen no longer shows it.
pub struct ViewState {
    pub lines: Seq<Seq<char>>,
    pub size: Size,
    pub dirty: bool,
}

/// A line cut to at most `width` characters from its start.
pub open spec fn truncated(line: Seq<char>, width: usize) -> Seq<char> {
    if line.len() > width {
        line.take(width as int)
    } else {
        line
    }
}

/// How many rows of a document of `lines` lines fit a grid of `height` rows.
pub open spec fn visible_rows(lines: nat, height: usize) -> nat {
    if lines <= height {
        lines
    } else {
        height as nat
    }
}

/// The operations that draw the first `rows` lines, each on the row of its
/// index and cut to `width`.
pub open spec fn document_ops(lines: Seq<Seq<char>>, width: usize, rows: nat) -> Seq<Op>
    decreases rows,
{
    if rows == 0 {
        Seq::empty()
    } else {
        document_ops(lines, width, (rows - 1) as nat) + line_ops(
            (rows - 1) as usize,
            truncated(lines[rows - 1], width),
        )
    }
}

/// The column at which a text of `len` characters starts when it is centred
/// in `width` columns: column 0 where it is wider than the grid.
pub open spec fn centered_column(width: usize, len: nat) -> usize {
    if len <= width {
        ((width - len) / 2) as usize
    } else {
        0
    }
}

/// The row of the banner's first line: one above the middle row, row 0 where
/// there is none above.
pub open spec fn banner_row(height: usize) -> usize {
    if height / 2 >= 1 {
        (height / 2 - 1) as usize
    } else {
        0
    }
}

/// The operations that draw a banner of two lines, `name` above `version`,
/// each centred in the width.
pub open spec fn banner_ops(size: Size, name: Seq<char>, version: Seq<char>) -> Seq<Op> {
    seq![
        move_op(Position { col: centered_column(size.width, name.len()), row: banner_row(size.height) }),
        Op::Print(name),
        move_op(
            Position {
                col: centered_column(size.width, version.len()),
                row: (banner_row(size.height) + 1) as usize,
            },
        ),
        Op::Print(version),
    ]
}

/// The whole frame of a view, drawn whether or not anything changed: the
/// welcome banner for an empty document, else the visible rows.
pub open spec fn full_frame(lines: Seq<Seq<char>>, size: Size) -> Seq<Op> {
    if lines.len() == 0 {
        banner_ops(size, NAME@, VERSION@)
    } else {
        document_ops(lines, size.width, visible_rows(lines.len(), size.height))
    }
}

/// Whether rendering draws anything: the view is dirty and the grid has
/// cells.
pub open spec fn draws(v: ViewState) -> bool {
    v.dirty && v.size.width > 0 && v.size.height > 0
}

/// What one rendering of `v` draws.
pub open spec fn frame_ops(v: ViewState) -> Seq<Op> {
    if draws(v) {
        full_frame(v.lines, v.size)
    } else {
        Seq::empty()
    }
}

/// The view after one rendering: clean if it drew, else as it was.
pub open spec fn rendered(v: ViewState) -> ViewState {
    if draws(v) {
        ViewState { dirty: false, ..v }
    } else {
        v
    }
}

/// The view after it heard of a new size.
pub open spec fn resized(v: ViewState, to: Size) -> ViewState {
    ViewState { size: to, dirty: true, ..v }
}

/// A document and what the screen is known to show of it.
pub struct View {
    buffer: Buffer,
    should_redraw: bool,
    size: Size,
}

impl vstd::view::View for View {
    type V = ViewState;

    closed spec fn view(&self) -> ViewState {
        ViewState { lines: self.buffer@, size: self.size, dirty: self.should_redraw }
    }
}

impl Default for View {
    fn default() -> (r: View)
        ensures
            r@ == (ViewState {
                lines: Seq::empty(),
                size: Size { width: 0, height: 0 },
                dirty: true,
            }),
    {
        View { buffer: Buffer::default(), should_redraw: true, size: Size::default() }
    }
}

impl View {
    /// A view of the document with these contents, for a terminal of this
    /// size. Nothing of it is on the screen yet.
    pub fn load(contents: &str, size: Size) -> (r: View)
        ensures
            r@ == (ViewState { lines: buffer::split_lines(contents@), size, dirty: true }),
    {
        let buffer = Buffer::load(contents);
        View { buffer, should_redraw: true, size }
    }

    /// Takes the new size. Nothing is drawn before the next rendering.
    pub fn resize(&mut self, to: Size)
        ensures
            final(self)@ == resized(old(self)@, to),
    {
        self.size = to;
        self.should_redraw = true;
    }

    /// The size that the view last heard of.
    pub fn size(&self) -> (r: Size)
        ensures
            r == self@.size,
    {
        self.size
    }

    /// Whether the next rendering has anything to bring to the screen.
    pub fn needs_redraw(&self) -> (r: bool)
        ensures
            r == self@.dirty,
    {
        self.should_redraw
    }

    /// Draws the frame if the view is dirty and the grid has cells, and
    /// does nothing otherwise.
    pub fn render(&mut self, t: &mut Surface)
        ensures
            final(t).queued_after(old(t), frame_ops(old(self)@)),
            final(self)@ == rendered(old(self)@),
    {
        if !self.should_redraw || self.size.width == 0 || self.size.height == 0 {
            assert(t.pending() =~= old(t).pending() + frame_ops(old(self)@));
            return ;
        }
        if self.buffer.is_empty() {
            Self::draw_welcome_message(t, self.size);
        } else {
            self.render_buffer(t);
        }
        self.should_redraw = false;
    }

    fn render_buffer(&self, t: &mut Surface)
        ensures
            final(t).queued_after(
                old(t),
                document_ops(
                    self@.lines,
                    self@.size.width,
                    visible_rows(self@.lines.len(), self@.size.height),
                ),
            ),
    {
        let width: usize = self.size.width;
        let count: usize = self.buffer.len();
        let rows: usize = if count <= self.size.height {
            count
        } else {
            self.size.height
        };
        let lines = self.buffer.lines();
        let mut idx: usize = 0;
        assert(t.pending() =~= old(t).pending() + document_ops(self@.lines, width, 0));
        while idx < rows
            invariant
                idx <= rows <= lines@.len(),
                buffer::texts_of(lines@) == self@.lines,
                width == self.size.width,
                t.queued_after(old(t), document_ops(self@.lines, width, idx as nat)),
            decreases rows - idx,
        {
            let line = lines[idx].as_str();
            let count: usize = line.unicode_len();
            let truncated_line = if count > width {
                line.substring_char(0, width)
            } else {
                line
            };
            Self::render_line(t, idx, truncated_line);
            proof {
                assert(truncated_line@ =~= truncated(self@.lines[idx as int], width));
                assert(t.pending() =~= old(t).pending() + document_ops(
                    self@.lines,
                    width,
                    (idx + 1) as nat,
                ));
            }
            idx += 1;
        }
    }

    fn render_line(t: &mut Surface, at: usize, line_text: &str)
        ensures
            final(t).queued_after(old(t), line_ops(at, line_text@)),
    {
        print_line(t, at, line_text);
    }

    /// Draws a banner of two lines, `name` above `version`, each centred in
    /// the width, the first one row above the middle of the grid.
    pub fn draw_banner(t: &mut Surface, size: Size, name: &str, version: &str)
        ensures
            final(t).queued_after(old(t), banner_ops(size, name@, version@)),
    {
        let y: usize = if size.height / 2 >= 1 {
            size.height / 2 - 1
        } else {
            0
        };
        let x: usize = Self::centered(size.width, name.unicode_len());
        move_caret_to(t, Position { col: x, row: y });
        print(t, name);
        let x: usize = Self::centered(size.width, version.unicode_len());
        move_caret_to(t, Position { col: x, row: y + 1 });
        print(t, version);
        assert(t.pending() =~= old(t).pending() + banner_ops(size, name@, version@));
    }

    fn centered(width: usize, len: usize) -> (col: usize)
        ensures
            col == centered_column(width, len as nat),
    {
        if len <= width {
            (width - len) / 2
        } else {
            0
        }
    }

    fn draw_welcome_message(t: &mut Surface, size: Size)
        ensures
            final(t).queued_after(old(t), banner_ops(size, NAME@, VERSION@)),
    {
        Self::draw_banner(t, size, NAME, VERSION);
    }
}

/// Rendering a view that was just rendered draws nothing and changes
/// nothing.
pub proof fn lemma_second_render_draws_nothing(v: ViewState)
    ensures
        frame_ops(rendered(v)) == Seq::<Op>::empty(),
        rendered(rendered(v)) == rendered(v),
{
}

/// After a resize to a grid with cells, one rendering draws the whole frame
/// for the new size, whatever the view's state was, and the next draws
/// nothing.
pub proof fn lemma_resize_forces_full_frame(v: ViewState, to: Size)
    requires
        to.width > 0,
        to.height > 0,
    ensures
        frame_ops(resized(v, to)) == full_frame(v.lines, to),
        frame_ops(rendered(resized(v, to))) == Seq::<Op>::empty(),
{
}

/// A document is drawn in as many rows as fit, three operations to a row:
/// row `i` moves the caret to the start of row `i`, erases that row and
/// prints line `i` cut to the width. No operation concerns a row past the
/// last one drawn.
pub proof fn lemma_document_rows(lines: Seq<Seq<char>>, width: usize, rows: nat)
    requires
        rows <= lines.len(),
    ensures
        document_ops(lines, width, rows).len() == 3 * rows,
        forall|i: int|
            0 <= i < rows ==> {
                &&& #[trigger] document_ops(lines, width, rows)[3 * i] == move_op(
                    Position { col: 0, row: i as usize },
                )
                &&& document_ops(lines, width, rows)[3 * i + 1] == Op::ClearLine
                &&& document_ops(lines, width, rows)[3 * i + 2] == Op::Print(
                    truncated(lines[i], width),
                )
            },
    decreases rows,
{
    if rows > 0 {
        let head = document_ops(lines, width, (rows - 1) as nat);
        lemma_document_rows(lines, width, (rows - 1) as nat);
        let all = document_ops(lines, width, rows);
        assert(all == head + line_ops((rows - 1) as usize, truncated(lines[rows - 1], width)));
        assert forall|i: int| 0 <= i < rows implies {
            &&& #[trigger] all[3 * i] == move_op(Position { col: 0, row: i as usize })
            &&& all[3 * i + 1] == Op::ClearLine
            &&& all[3 * i + 2] == Op::Print(truncated(lines[i], width))
        } by {
            if i < rows - 1 {
                assert(all[3 * i] == head[3 * i]);
                assert(all[3 * i + 1] == head[3 * i + 1]);
                assert(all[3 * i + 2] == head[3 * i + 2]);
            }
        }
    }
}

/// A document of `L` lines in a grid of `H` rows with cells is drawn in its
/// first `L` rows if `L` is at most `H`, else in all `H` rows, top down,
/// one line to a row, and nothing else is touched.
pub proof fn lemma_full_frame_rows(lines: Seq<Seq<char>>, size: Size)
    requires
        lines.len() > 0,
    ensures
        full_frame(lines, size).len() == 3 * visible_rows(lines.len(), size.height),
        visible_rows(lines.len(), size.height) == if lines.len() <= size.height {
            lines.len()
        } else {
            size.height as nat
        },
        forall|i: int|
            0 <= i < visible_rows(lines.len(), size.height) ==> {
                &&& #[trigger] full_frame(lines, size)[3 * i] == move_op(
                    Position { col: 0, row: i as usize },
                )
                &&& full_frame(lines, size)[3 * i + 1] == Op::ClearLine
                &&& full_frame(lines, size)[3 * i + 2] == Op::Print(
                    truncated(lines[i], size.width),
                )
            },
{
    lemma_document_rows(lines, size.width, visible_rows(lines.len(), size.height));
}

/// A drawn line never holds more characters than the grid is wide, and is
/// the start of the line it was cut from.
pub proof fn lemma_truncated_is_prefix(line: Seq<char>, width: usize)
    ensures
        truncated(line, width).len() <= width,
        truncated(line, width).len() <= line.len(),
        truncated(line, width) == line.take(truncated(line, width).len() as int),
        line.len() > width ==> truncated(line, width).len() == width,
{
    assert(line.take(line.len() as int) =~= line);
}

} // verus!
