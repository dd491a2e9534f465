//! The terminal surface: a queue of drawing commands and the frames that
//! were flushed from it.

use vstd::prelude::*;

verus! {

/// Dimensions of the terminal, in cells.
#[derive(Copy, Clone, Debug, PartialEq, Eq, Structural)]
pub struct Size {
    pub width: usize,
    pub height: usize,
}

impl Default for Size {
    fn default() -> (r: Size)
        ensures
            r == (Size { width: 0, height: 0 }),
    {
        Size { width: 0, height: 0 }
    }
}

/// A cell of the visible grid, counted from zero.
#[derive(Copy, Clone, Debug, PartialEq, Eq, Structural)]
pub struct Position {
    pub col: usize,
    pub row: usize,
}

impl Default for Position {
    fn default() -> (r: Position)
        ensures
            r == (Position { col: 0, row: 0 }),
    {
        Position { col: 0, row: 0 }
    }
}

/// One operation on the terminal device.
#[derive(Debug, PartialEq, Eq)]
pub enum Command {
    EnableRawMode,
    DisableRawMode,
    EnterAlternateScreen,
    LeaveAlternateScreen,
    ClearScreen,
    ClearLine,
    MoveTo { col: u16, row: u16 },
    HideCaret,
    ShowCaret,
    Print(String),
}

/// The mathematical value of a [`Command`]: printed text is a sequence of
/// characters.
pub enum Op {
    EnableRawMode,
    DisableRawMode,
    EnterAlternateScreen,
    LeaveAlternateScreen,
    ClearScreen,
    ClearLine,
    MoveTo { col: u16, row: u16 },
    HideCaret,
    ShowCaret,
    Print(Seq<char>),
}

impl View for Command {
    type V = Op;

    open spec fn view(&self) -> Op {
        match self {
            Command::EnableRawMode => Op::EnableRawMode,
            Command::DisableRawMode => Op::DisableRawMode,
            Command::EnterAlternateScreen => Op::EnterAlternateScreen,
            Command::LeaveAlternateScreen => Op::LeaveAlternateScreen,
            Command::ClearScreen => Op::ClearScreen,
            Command::ClearLine => Op::ClearLine,
            Command::MoveTo { col, row } => Op::MoveTo { col: *col, row: *row },
            Command::HideCaret => Op::HideCaret,
            Command::ShowCaret => Op::ShowCaret,
            Command::Print(text) => Op::Print(text@),
        }
    }
}

/// The values of a sequence of commands, in order.
pub open spec fn ops_of(commands: Seq<Command>) -> Seq<Op> {
    commands.map_values(|c: Command| c@)
}

/// A coordinate as the device takes it: anything past the addressable range
/// becomes the last addressable cell.
pub open spec fn device_coordinate(x: usize) -> u16 {
    if x > u16::MAX {
        u16::MAX
    } else {
        x as u16
    }
}

/// The operation that moves the caret to `p`.
pub open spec fn move_op(p: Position) -> Op {
    Op::MoveTo { col: device_coordinate(p.col), row: device_coordinate(p.row) }
}

/// The operations that draw `text` on row `row`: go to the start of the row,
/// erase it, print.
pub open spec fn line_ops(row: usize, text: Seq<char>) -> Seq<Op> {
    seq![move_op(Position { col: 0, row }), Op::ClearLine, Op::Print(text)]
}

/// The size that a device report stands for: zero by zero where the device
/// could not say.
pub open spec fn reported_size(report: Option<(u16, u16)>) -> Size {
    match report {
        Some((width, height)) => Size { width: width as usize, height: height as usize },
        None => Size { width: 0, height: 0 },
    }
}

/// The terminal as the library sees it. Operations are queued and stay
/// invisible until a flush moves the whole queue to the output in one piece.
pub struct Surface {
    queued: Vec<Command>,
    flushed: Vec<Command>,
}

impl Surface {
    /// What is queued and not yet flushed.
    pub closed spec fn pending(&self) -> Seq<Op> {
        ops_of(self.queued@)
    }

    /// What was flushed and not yet taken.
    pub closed spec fn written(&self) -> Seq<Op> {
        ops_of(self.flushed@)
    }

    /// `self` is `before` with `ops` queued behind what was pending.
    pub open spec fn queued_after(&self, before: &Surface, ops: Seq<Op>) -> bool {
        &&& self.pending() == before.pending() + ops
        &&& self.written() == before.written()
    }

    pub fn new() -> (t: Surface)
        ensures
            t.pending() == Seq::<Op>::empty(),
            t.written() == Seq::<Op>::empty(),
    {
        let t = Surface { queued: Vec::new(), flushed: Vec::new() };
        assert(t.pending() =~= Seq::<Op>::empty());
        assert(t.written() =~= Seq::<Op>::empty());
        t
    }

    /// The queued commands.
    pub fn queued(&self) -> (r: &Vec<Command>)
        ensures
            ops_of(r@) == self.pending(),
    {
        &self.queued
    }

    /// The flushed commands.
    pub fn flushed(&self) -> (r: &Vec<Command>)
        ensures
            ops_of(r@) == self.written(),
    {
        &self.flushed
    }

    /// Hands out what was flushed, for the device, and forgets it.
    pub fn take_output(&mut self) -> (out: Vec<Command>)
        ensures
            ops_of(out@) == old(self).written(),
            final(self).written() == Seq::<Op>::empty(),
            final(self).pending() == old(self).pending(),
    {
        let mut out: Vec<Command> = Vec::new();
        std::mem::swap(&mut out, &mut self.flushed);
        assert(self.written() =~= Seq::<Op>::empty());
        out
    }
}

fn queue_command(t: &mut Surface, command: Command)
    ensures
        final(t).queued_after(old(t), seq![command@]),
{
    t.queued.push(command);
    assert(t.pending() =~= old(t).pending() + seq![command@]);
}

/// Enters raw mode and the alternate screen, and clears it.
pub fn initialize(t: &mut Surface)
    ensures
        final(t).queued_after(
            old(t),
            seq![Op::EnableRawMode, Op::EnterAlternateScreen, Op::ClearScreen],
        ),
{
    queue_command(t, Command::EnableRawMode);
    enter_alternate_screen(t);
    clear_screen(t);
    assert(t.pending() =~= old(t).pending() + seq![
        Op::EnableRawMode,
        Op::EnterAlternateScreen,
        Op::ClearScreen,
    ]);
}

/// Leaves raw mode and the alternate screen.
pub fn terminate(t: &mut Surface)
    ensures
        final(t).queued_after(old(t), seq![Op::DisableRawMode, Op::LeaveAlternateScreen]),
{
    queue_command(t, Command::DisableRawMode);
    leave_alternate_screen(t);
    assert(t.pending() =~= old(t).pending() + seq![
        Op::DisableRawMode,
        Op::LeaveAlternateScreen,
    ]);
}

pub fn enter_alternate_screen(t: &mut Surface)
    ensures
        final(t).queued_after(old(t), seq![Op::EnterAlternateScreen]),
{
    queue_command(t, Command::EnterAlternateScreen);
}

pub fn leave_alternate_screen(t: &mut Surface)
    ensures
        final(t).queued_after(old(t), seq![Op::LeaveAlternateScreen]),
{
    queue_command(t, Command::LeaveAlternateScreen);
}

/// Erases the whole grid.
pub fn clear_screen(t: &mut Surface)
    ensures
        final(t).queued_after(old(t), seq![Op::ClearScreen]),
{
    queue_command(t, Command::ClearScreen);
}

/// Erases the row the caret is on.
pub fn clear_line(t: &mut Surface)
    ensures
        final(t).queued_after(old(t), seq![Op::ClearLine]),
{
    queue_command(t, Command::ClearLine);
}

fn to_device(x: usize) -> (r: u16)
    ensures
        r == device_coordinate(x),
{
    if x > 0xffff {
        0xffff
    } else {
        x as u16
    }
}

/// Moves the caret to `p`. A coordinate that the device cannot address is
/// clamped to the last one it can.
pub fn move_caret_to(t: &mut Surface, p: Position)
    ensures
        final(t).queued_after(old(t), seq![move_op(p)]),
{
    queue_command(t, Command::MoveTo { col: to_device(p.col), row: to_device(p.row) });
}

pub fn hide_caret(t: &mut Surface)
    ensures
        final(t).queued_after(old(t), seq![Op::HideCaret]),
{
    queue_command(t, Command::HideCaret);
}

pub fn show_caret(t: &mut Surface)
    ensures
        final(t).queued_after(old(t), seq![Op::ShowCaret]),
{
    queue_command(t, Command::ShowCaret);
}

/// Draws `line_text` on row `row`, erasing what the row held.
pub fn print_line(t: &mut Surface, row: usize, line_text: &str)
    ensures
        final(t).queued_after(old(t), line_ops(row, line_text@)),
{
    move_caret_to(t, Position { row, col: 0 });
    clear_line(t);
    print(t, line_text);
    assert(t.pending() =~= old(t).pending() + line_ops(row, line_text@));
}

/// The terminal's size from what the device reported, if it did.
pub fn size(report: Option<(u16, u16)>) -> (r: Size)
    ensures
        r == reported_size(report),
{
    match report {
        Some((width, height)) => Size { width: width as usize, height: height as usize },
        None => Size::default(),
    }
}

/// Queues `string` as it is, at the caret.
pub fn print(t: &mut Surface, string: &str)
    ensures
        final(t).queued_after(old(t), seq![Op::Print(string@)]),
{
    queue_command(t, Command::Print(string.to_owned()));
}

/// Flushes the queue: everything pending becomes output, in order and in
/// one piece.
pub fn execute(t: &mut Surface)
    ensures
        final(t).pending() == Seq::<Op>::empty(),
        final(t).written() == old(t).written() + old(t).pending(),
{
    t.flushed.append(&mut t.queued);
    assert(t.pending() =~= Seq::<Op>::empty());
    assert(t.written() =~= old(t).written() + old(t).pending());
}

} // verus!
