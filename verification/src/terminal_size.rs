//! The size of the terminal, as the shell last saw it.

use vstd::prelude::*;

verus! {

/// Rows and columns of the terminal.
#[derive(Debug, Clone, Copy, PartialEq, Eq, Structural)]
pub struct TerminalSize {
    pub rows: u16,
    pub cols: u16,
}

pub fn get_rows(size: &TerminalSize) -> (r: u16)
    ensures
        r == size.rows,
{
    size.rows
}

pub fn get_cols(size: &TerminalSize) -> (r: u16)
    ensures
        r == size.cols,
{
    size.cols
}

} // verus!
