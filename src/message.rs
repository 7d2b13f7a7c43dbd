use vstd::prelude::*;

verus! {

/// Geometry of the terminal: rows and columns of cells, and the size of one
/// cell in pixels.
#[derive(Clone, Copy, Debug, PartialEq, Eq, Structural)]
pub struct WindowSize {
    pub num_lines: u16,
    pub num_cols: u16,
    pub cell_width: u16,
    pub cell_height: u16,
}

/// A message on the control channel of a session.
#[derive(Clone, Debug)]
pub enum Msg {
    /// Bytes to write to the pseudo-terminal.
    Input(Vec<u8>),
    /// Ends the session's loop.
    Shutdown,
    /// New geometry for the pseudo-terminal and the display buffer.
    Resize(WindowSize),
}

} // verus!
