//! A terminal text viewer: a line buffer, a view that composes frames of
//! drawing commands, and a session controller that turns input events into
//! cursor movement, resizes and quitting.
//!
//! The library never touches a device. Drawing is queued on a [`Surface`],
//! flushed in whole frames, and handed out as plain [`Command`] values.

pub mod editor;

pub use editor::terminal::{Command, Op, Position, Size, Surface};
pub use editor::view::buffer::Buffer;


pub use editor::view::View;
pub use editor::{Editor, Event, Key};
