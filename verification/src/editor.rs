//! The session controller: cursor, quit flag and the frame around the view.

use terminal::{
    clear_screen, execute, hide_caret, initialize, move_caret_to, move_op, print, show_caret,
    terminate, Op, Position, Size, Surface,
};
use view::{frame_ops, rendered, resized, ViewState};
use vstd::prelude::*;

pub mod terminal;
pub mod view;

verus! {

/// A key, as far as the session tells keys apart.
#[derive(Copy, Clone, Debug, PartialEq, Eq, Structural)]
pub enum Key {
    Esc,
    Char(char),
    Other,
}

/// One input event.
#[derive(Copy, Clone, Debug, PartialEq, Eq, Structural)]
pub enum Event {
    Key(Key),
    Resize(u16, u16),
    Other,
}

/// What a session is: whether it is quitting, where the cursor is, and its
/// view.
pub struct EditorState {
    pub quitting: bool,
    pub cursor: Position,
    pub view: ViewState,
}

/// One step towards zero, staying at zero.
pub open spec fn step_back(x: usize) -> usize {
    if x > 0 {
        (x - 1) as usize
    } else {
        0
    }
}

/// One step away from zero, never past `limit`.
pub open spec fn step_forward(x: usize, limit: usize) -> usize {
    if x < limit {
        (x + 1) as usize
    } else {
        limit
    }
}

/// Whether `c` is one of the four keys that move the cursor.
pub open spec fn is_direction(c: char) -> bool {
    c == 'h' || c == 'j' || c == 'k' || c == 'l'
}

/// The cursor after the key `c`: `h` left, `j` down, `k` up, `l` right, one
/// cell each, held between zero and the size of the terminal.
pub open spec fn moved(cursor: Position, c: char, size: Size) -> Position {
    if c == 'h' {
        Position { col: step_back(cursor.col), row: cursor.row }
    } else if c == 'j' {
        Position { col: cursor.col, row: step_forward(cursor.row, size.height) }
    } else if c == 'k' {
        Position { col: cursor.col, row: step_back(cursor.row) }
    } else if c == 'l' {
        Position { col: step_forward(cursor.col, size.width), row: cursor.row }
    } else {
        cursor
    }
}

/// The session after one event: the quit key sets it quitting, a direction
/// key moves the cursor within the size the view last heard of, a resize
/// goes to the view, and anything else changes nothing.
pub open spec fn stepped(s: EditorState, event: Event) -> EditorState {
    match event {
        Event::Key(Key::Esc) => EditorState { quitting: true, ..s },
        Event::Key(Key::Char(c)) => if is_direction(c) {
            EditorState { cursor: moved(s.cursor, c, s.view.size), ..s }
        } else {
            s
        },
        Event::Resize(width, height) => EditorState {
            view: resized(s.view, Size { width: width as usize, height: height as usize }),
            ..s
        },
        _ => s,
    }
}

/// The farewell that a quitting session shows.
pub const FAREWELL: &'static str = "Goodbye.\r\n";

/// A session as it starts: running, the cursor at the origin, an empty
/// document that nothing was drawn of, and the size of the terminal.
pub open spec fn started(size: Size) -> EditorState {
    EditorState {
        quitting: false,
        cursor: Position { col: 0, row: 0 },
        view: ViewState { lines: Seq::empty(), size, dirty: true },
    }
}

/// Whether the terminal is in raw mode after `ops`, given whether it was
/// before: the last operation that sets the mode decides.
pub open spec fn raw_mode_after(before: bool, ops: Seq<Op>) -> bool
    decreases ops.len(),
{
    if ops.len() == 0 {
        before
    } else {
        match ops.last() {
            Op::EnableRawMode => true,
            Op::DisableRawMode => false,
            _ => raw_mode_after(before, ops.drop_last()),
        }
    }
}

/// No operation of `ops` sets the terminal's mode.
pub open spec fn sets_no_mode(ops: Seq<Op>) -> bool {
    forall|i: int|
        0 <= i < ops.len() ==> #[trigger] ops[i] != Op::EnableRawMode && ops[i]
            != Op::DisableRawMode
}

/// What one frame of the session draws between hiding and showing the
/// caret: the farewell on a cleared screen when quitting, else whatever the
/// view has to draw.
pub open spec fn content_ops(s: EditorState) -> Seq<Op> {
    if s.quitting {
        seq![Op::ClearScreen, Op::Print(FAREWELL@)]
    } else {
        frame_ops(s.view)
    }
}

/// One whole frame: the caret is hidden and sent to the origin, the content
/// is drawn, the caret goes to the cursor and is shown again.
pub open spec fn screen_ops(s: EditorState) -> Seq<Op> {
    seq![Op::HideCaret, move_op(Position { col: 0, row: 0 })] + content_ops(s) + seq![
        move_op(s.cursor),
        Op::ShowCaret,
    ]
}

/// The session after one frame was drawn.
pub open spec fn refreshed(s: EditorState) -> EditorState {
    if s.quitting {
        s
    } else {
        EditorState { view: rendered(s.view), ..s }
    }
}

/// What a session that has just drawn a frame still draws while it takes
/// `events`: one frame after each event, up to and including the farewell
/// frame.
pub open spec fn ops_after_frame(s: EditorState, events: Seq<Event>) -> Seq<Op>
    decreases events.len(),
{
    if s.quitting || events.len() == 0 {
        Seq::empty()
    } else {
        let next = stepped(s, events[0]);
        screen_ops(next) + ops_after_frame(refreshed(next), events.drop_first())
    }
}

/// Where a session that has just drawn a frame ends up on `events`.
pub open spec fn state_after_frame(s: EditorState, events: Seq<Event>) -> EditorState
    decreases events.len(),
{
    if s.quitting || events.len() == 0 {
        s
    } else {
        state_after_frame(refreshed(stepped(s, events[0])), events.drop_first())
    }
}

/// How many of `events` a session that has just drawn a frame takes before
/// it stops.
pub open spec fn taken_after_frame(s: EditorState, events: Seq<Event>) -> nat
    decreases events.len(),
{
    if s.quitting || events.len() == 0 {
        0
    } else {
        1 + taken_after_frame(refreshed(stepped(s, events[0])), events.drop_first())
    }
}

/// Everything a run of the session on `events` draws.
pub open spec fn run_ops(s: EditorState, events: Seq<Event>) -> Seq<Op> {
    screen_ops(s) + ops_after_frame(refreshed(s), events)
}

/// The farewell line, printed once the terminal is restored.
pub open spec fn shutdown_ops(s: EditorState) -> Seq<Op> {
    if s.quitting {
        seq![Op::DisableRawMode, Op::LeaveAlternateScreen, Op::Print(FAREWELL@)]
    } else {
        seq![Op::DisableRawMode, Op::LeaveAlternateScreen]
    }
}

/// The path of the file to open at startup: the argument after the
/// program's name, if there is one.
pub fn file_argument(args: &Vec<String>) -> (r: Option<&String>)
    ensures
        args@.len() > 1 ==> r == Some(&args@[1]),
        args@.len() <= 1 ==> r is None,
{
    if args.len() > 1 {
        Some(&args[1])
    } else {
        None
    }
}

/// A session: a view, a cursor and a quit flag.
pub struct Editor {
    should_quit: bool,
    position: Position,
    view: view::View,
}

impl View for Editor {
    type V = EditorState;

    closed spec fn view(&self) -> EditorState {
        EditorState { quitting: self.should_quit, cursor: self.position, view: self.view@ }
    }
}

impl Editor {
    /// Starts a session on an empty document: the terminal is initialized,
    /// the cursor is at the origin, and the view knows the terminal's size.
    pub fn new(t: &mut Surface, size: Size) -> (r: Editor)
        ensures
            final(t).queued_after(
                old(t),
                seq![Op::EnableRawMode, Op::EnterAlternateScreen, Op::ClearScreen],
            ),
            r@ == started(size),
    {
        initialize(t);
        let mut view = view::View::default();
        view.resize(size);
        Editor { should_quit: false, position: Position::default(), view }
    }

    /// Replaces the view by one of the document with these contents, for the
    /// size that the old view knew.
    pub fn open(&mut self, contents: &str)
        ensures
            final(self)@ == (EditorState {
                view: ViewState {
                    lines: view::buffer::split_lines(contents@),
                    size: old(self)@.view.size,
                    dirty: true,
                },
                ..old(self)@
            }),
    {
        let view = view::View::load(contents, self.view.size());
        self.view = view;
    }

    /// Whether the quit key was pressed.
    pub fn should_quit(&self) -> (r: bool)
        ensures
            r == self@.quitting,
    {
        self.should_quit
    }

    /// Where the cursor is.
    pub fn position(&self) -> (r: Position)
        ensures
            r == self@.cursor,
    {
        self.position
    }

    /// The size that the session last heard of.
    pub fn size(&self) -> (r: Size)
        ensures
            r == self@.view.size,
    {
        self.view.size()
    }

    /// Draws frames and takes events in turn, starting with a frame, until
    /// the session is quitting or the events run out. Every frame is
    /// flushed. Returns how many events were taken.
    pub fn run(&mut self, t: &mut Surface, events: &Vec<Event>) -> (taken: usize)
        ensures
            final(t).pending() == Seq::<Op>::empty(),
            final(t).written() == old(t).written() + old(t).pending() + run_ops(
                old(self)@,
                events@,
            ),
            final(self)@ == state_after_frame(refreshed(old(self)@), events@),
            taken == taken_after_frame(refreshed(old(self)@), events@),
    {
        let ghost base = old(t).written() + old(t).pending();
        let ghost first = refreshed(old(self)@);
        self.refresh_screen(t);
        let mut i: usize = 0;
        assert(events@.skip(0) =~= events@);
        assert(base + run_ops(old(self)@, events@) =~= t.written() + ops_after_frame(
            self@,
            events@,
        ));
        while !self.should_quit && i < events.len()
            invariant
                i <= events@.len(),
                t.pending() == Seq::<Op>::empty(),
                base + run_ops(old(self)@, events@) == t.written() + ops_after_frame(
                    self@,
                    events@.skip(i as int),
                ),
                state_after_frame(first, events@) == state_after_frame(
                    self@,
                    events@.skip(i as int),
                ),
                taken_after_frame(first, events@) == i + taken_after_frame(
                    self@,
                    events@.skip(i as int),
                ),
            decreases events@.len() - i,
        {
            let ghost before = self@;
            let ghost rest = events@.skip(i as int);
            let ghost written = t.written();
            self.evaluate_event(&events[i]);
            self.refresh_screen(t);
            proof {
                assert(rest[0] == events@[i as int]);
                assert(rest.drop_first() =~= events@.skip(i + 1));
                let next = stepped(before, rest[0]);
                assert(written + (screen_ops(next) + ops_after_frame(
                    refreshed(next),
                    rest.drop_first(),
                )) =~= (written + screen_ops(next)) + ops_after_frame(
                    refreshed(next),
                    rest.drop_first(),
                ));
                assert(t.written() =~= written + screen_ops(next));
            }
            i += 1;
        }
        i
    }

    /// Draws one frame and flushes it.
    pub fn refresh_screen(&mut self, t: &mut Surface)
        ensures
            final(t).pending() == Seq::<Op>::empty(),
            final(t).written() == old(t).written() + old(t).pending() + screen_ops(old(self)@),
            final(self)@ == refreshed(old(self)@),
    {
        hide_caret(t);
        move_caret_to(t, Position::default());
        if self.should_quit {
            clear_screen(t);
            print(t, FAREWELL);
        } else {
            self.view.render(t);
        }
        move_caret_to(t, self.position);
        show_caret(t);
        assert(t.pending() =~= old(t).pending() + screen_ops(old(self)@));
        execute(t);
        assert(t.written() =~= old(t).written() + old(t).pending() + screen_ops(old(self)@));
    }

    /// Applies one event to the session.
    pub fn evaluate_event(&mut self, event: &Event)
        ensures
            final(self)@ == stepped(old(self)@, *event),
    {
        match event {
            Event::Key(key) => match key {
                Key::Esc => {
                    self.should_quit = true;
                },
                Key::Char(c) => {
                    if *c == 'h' || *c == 'j' || *c == 'k' || *c == 'l' {
                        self.move_cursor(*c);
                    }
                },
                Key::Other => {},
            },
            Event::Resize(width, height) => {
                self.view.resize(Size { width: *width as usize, height: *height as usize });
            },
            Event::Other => {},
        }
    }

    fn move_cursor(&mut self, key: char)
        ensures
            final(self)@ == (EditorState {
                cursor: moved(old(self)@.cursor, key, old(self)@.view.size),
                ..old(self)@
            }),
    {
        let Position { col: mut x, row: mut y } = self.position;
        let Size { width, height } = self.view.size();
        if key == 'h' {
            x = x.saturating_sub(1);
        } else if key == 'j' {
            y = Self::at_most(height, y.saturating_add(1));
        } else if key == 'k' {
            y = y.saturating_sub(1);
        } else if key == 'l' {
            x = Self::at_most(width, x.saturating_add(1));
        }
        self.position = Position { col: x, row: y };
    }

    fn at_most(limit: usize, x: usize) -> (r: usize)
        ensures
            r == if x < limit { x } else { limit },
    {
        if x < limit {
            x
        } else {
            limit
        }
    }

    /// Ends the session: the terminal is restored, a session that is
    /// quitting says farewell, and all of it is flushed.
    pub fn shutdown(&self, t: &mut Surface)
        ensures
            final(t).pending() == Seq::<Op>::empty(),
            final(t).written() == old(t).written() + old(t).pending() + shutdown_ops(self@),
    {
        terminate(t);
        if self.should_quit {
            print(t, FAREWELL);
        }
        assert(t.pending() =~= old(t).pending() + shutdown_ops(self@));
        execute(t);
        assert(t.written() =~= old(t).written() + old(t).pending() + shutdown_ops(self@));
    }
}

/// Only the quit key makes a session quit, and nothing makes it stop
/// quitting.
pub proof fn lemma_quit_only_by_quit_key(s: EditorState, event: Event)
    ensures
        stepped(s, event).quitting <==> s.quitting || event == Event::Key(Key::Esc),
{
}

/// A resize reaches the view and leaves the cursor where it was; a key
/// leaves the view as it was.
pub proof fn lemma_resize_keeps_cursor(s: EditorState, width: u16, height: u16)
    ensures
        stepped(s, Event::Resize(width, height)).cursor == s.cursor,
        stepped(s, Event::Resize(width, height)).view.size == (Size {
            width: width as usize,
            height: height as usize,
        }),
        stepped(s, Event::Resize(width, height)).view.dirty,
        forall|key: Key| (#[trigger] stepped(s, Event::Key(key))).view == s.view,
{
}

/// No key moves the cursor below zero or by more than one cell, and a
/// cursor within the terminal's size stays within it.
pub proof fn lemma_cursor_saturates(cursor: Position, c: char, size: Size)
    ensures
        moved(cursor, c, size).col <= cursor.col + 1,
        moved(cursor, c, size).row <= cursor.row + 1,
        moved(cursor, c, size).col + 1 >= cursor.col || moved(cursor, c, size).col == size.width,
        moved(cursor, c, size).row + 1 >= cursor.row || moved(cursor, c, size).row == size.height,
        cursor.col <= size.width ==> moved(cursor, c, size).col <= size.width,
        cursor.row <= size.height ==> moved(cursor, c, size).row <= size.height,
        cursor.col == 0 ==> moved(cursor, 'h', size).col == 0,
        cursor.row == 0 ==> moved(cursor, 'k', size).row == 0,
        cursor.row == size.height ==> moved(cursor, 'j', size).row == size.height,
        cursor.col == size.width ==> moved(cursor, 'l', size).col == size.width,
{
}

/// The first frame of a session on a terminal with cells shows the welcome
/// banner between hiding the caret and putting it back at the origin.
pub proof fn lemma_first_frame_shows_banner(size: Size)
    requires
        size.width > 0,
        size.height > 0,
    ensures
        screen_ops(started(size)) == seq![Op::HideCaret, move_op(Position { col: 0, row: 0 })]
            + view::banner_ops(size, view::NAME@, view::VERSION@) + seq![
            move_op(Position { col: 0, row: 0 }),
            Op::ShowCaret,
        ],
{
}

/// Wherever the cursor is, the quit key is the last event that a running
/// session takes, and the one frame after it shows the farewell on a cleared
/// screen and nothing of the document.
pub proof fn lemma_quit_key_ends_the_run(s: EditorState, events: Seq<Event>)
    requires
        !s.quitting,
        events.len() > 0,
        events[0] == Event::Key(Key::Esc),
    ensures
        taken_after_frame(s, events) == 1,
        state_after_frame(s, events) == (EditorState { quitting: true, ..s }),
        ops_after_frame(s, events) == seq![
            Op::HideCaret,
            move_op(Position { col: 0, row: 0 }),
            Op::ClearScreen,
            Op::Print(FAREWELL@),
            move_op(s.cursor),
            Op::ShowCaret,
        ],
{
    let next = stepped(s, events[0]);
    let rest = events.drop_first();
    assert(taken_after_frame(refreshed(next), rest) == 0);
    assert(state_after_frame(refreshed(next), rest) == next);
    assert(ops_after_frame(refreshed(next), rest) =~= Seq::<Op>::empty());
    assert(ops_after_frame(s, events) =~= seq![
        Op::HideCaret,
        move_op(Position { col: 0, row: 0 }),
        Op::ClearScreen,
        Op::Print(FAREWELL@),
        move_op(s.cursor),
        Op::ShowCaret,
    ]);
}

/// Operations that do not set the terminal's mode leave it as it was.
pub proof fn lemma_mode_kept(before: bool, ops: Seq<Op>, more: Seq<Op>)
    requires
        sets_no_mode(more),
    ensures
        raw_mode_after(before, ops + more) == raw_mode_after(before, ops),
    decreases more.len(),
{
    if more.len() == 0 {
        assert(ops + more =~= ops);
    } else {
        let all = ops + more;
        assert(all.last() == more.last());
        assert(all.drop_last() =~= ops + more.drop_last());
        lemma_mode_kept(before, ops, more.drop_last());
    }
}

proof fn lemma_document_sets_no_mode(lines: Seq<Seq<char>>, width: usize, rows: nat)
    ensures
        sets_no_mode(view::document_ops(lines, width, rows)),
    decreases rows,
{
    if rows > 0 {
        lemma_document_sets_no_mode(lines, width, (rows - 1) as nat);
    }
}

/// A frame leaves the terminal's mode alone.
pub proof fn lemma_frame_sets_no_mode(s: EditorState)
    ensures
        sets_no_mode(screen_ops(s)),
{
    if !s.quitting && view::draws(s.view) && s.view.lines.len() > 0 {
        lemma_document_sets_no_mode(
            s.view.lines,
            s.view.size.width,
            view::visible_rows(s.view.lines.len(), s.view.size.height),
        );
    }
    assert(sets_no_mode(content_ops(s)));
}

proof fn lemma_frames_set_no_mode(s: EditorState, events: Seq<Event>)
    ensures
        sets_no_mode(ops_after_frame(s, events)),
    decreases events.len(),
{
    if !(s.quitting || events.len() == 0) {
        let next = stepped(s, events[0]);
        lemma_frame_sets_no_mode(next);
        lemma_frames_set_no_mode(refreshed(next), events.drop_first());
    }
}

/// From the first frame of a session to its last, whatever the events, the
/// terminal stays in raw mode; after the shutdown it is out of it.
pub proof fn lemma_raw_mode_lasts_as_long_as_the_session(
    before: bool,
    size: Size,
    events: Seq<Event>,
)
    ensures
        ({
            let startup = seq![Op::EnableRawMode, Op::EnterAlternateScreen, Op::ClearScreen];
            let frames = run_ops(started(size), events);
            let end = state_after_frame(refreshed(started(size)), events);
            &&& raw_mode_after(before, startup)
            &&& raw_mode_after(before, startup + frames)
            &&& !raw_mode_after(before, startup + frames + shutdown_ops(end))
        }),
{
    let startup = seq![Op::EnableRawMode, Op::EnterAlternateScreen, Op::ClearScreen];
    let on = seq![Op::EnableRawMode];
    let frames = run_ops(started(size), events);
    let end = state_after_frame(refreshed(started(size)), events);
    assert(Seq::<Op>::empty() + on =~= on);
    assert(raw_mode_after(before, on));
    lemma_mode_kept(before, on, seq![Op::EnterAlternateScreen, Op::ClearScreen]);
    assert(on + seq![Op::EnterAlternateScreen, Op::ClearScreen] =~= startup);
    lemma_frame_sets_no_mode(started(size));
    lemma_frames_set_no_mode(refreshed(started(size)), events);
    lemma_mode_kept(before, startup, frames);
    lemma_shutdown_leaves_raw_mode(before, startup + frames, end);
}

/// After the shutdown the terminal is out of raw mode, whatever came
/// before.
pub proof fn lemma_shutdown_leaves_raw_mode(before: bool, ops: Seq<Op>, s: EditorState)
    ensures
        !raw_mode_after(before, ops + shutdown_ops(s)),
{
    let off = ops + seq![Op::DisableRawMode];
    assert(off.last() == Op::DisableRawMode);
    assert(!raw_mode_after(before, off));
    let rest = if s.quitting {
        seq![Op::LeaveAlternateScreen, Op::Print(FAREWELL@)]
    } else {
        seq![Op::LeaveAlternateScreen]
    };
    lemma_mode_kept(before, off, rest);
    assert(off + rest =~= ops + shutdown_ops(s));
}

/// A run ends with the last event or with the first quit key: it takes no
/// more events than there are, and if it ends before they run out, the
/// session is quitting.
pub proof fn lemma_run_ends_by_quit(s: EditorState, events: Seq<Event>)
    ensures
        taken_after_frame(s, events) <= events.len(),
        taken_after_frame(s, events) < events.len() ==> state_after_frame(s, events).quitting,
        state_after_frame(s, events).quitting ==> s.quitting || exists|i: int|
            0 <= i < events.len() && #[trigger] events[i] == Event::Key(Key::Esc),
    decreases events.len(),
{
    if s.quitting || events.len() == 0 {
    } else {
        let next = refreshed(stepped(s, events[0]));
        let rest = events.drop_first();
        lemma_run_ends_by_quit(next, rest);
        if state_after_frame(s, events).quitting && !next.quitting {
            let i = choose|i: int| 0 <= i < rest.len() && #[trigger] rest[i] == Event::Key(Key::Esc);
            assert(events[i + 1] == rest[i]);
        } else if next.quitting {
            assert(events[0] == Event::Key(Key::Esc));
        }
    }
}

} // verus!
