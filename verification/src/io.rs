//! The three descriptors that a command reads from and writes to.

use vstd::prelude::*;
use crate::ast::Pipe;

verus! {

/// A descriptor to write to.
#[derive(Debug, Clone, Copy, PartialEq, Eq, Structural)]
pub struct FdWrite(pub i32);

/// A descriptor to read from.
#[derive(Debug, Clone, Copy, PartialEq, Eq, Structural)]
pub struct FdRead(pub i32);

/// Input, output and error of a command.
#[derive(Debug, Clone, Copy, PartialEq, Eq, Structural)]
pub struct Io {
    pub input: FdRead,
    pub output: FdWrite,
    pub error: FdWrite,
}

/// The two sides of a pipe in a pipeline: the left command writes what the
/// pipe carries to the write end, the right command reads from the read end.
pub open spec fn connected(io: Io, pipe: Pipe, read: FdRead, write: FdWrite) -> (Io, Io) {
    (
        match pipe {
            Pipe::Stdout => Io { output: write, ..io },
            Pipe::Stderr => Io { error: write, ..io },
            Pipe::Both => Io { output: write, error: write, ..io },
        },
        Io { input: read, ..io },
    )
}

impl Io {
    /// The descriptors 0, 1 and 2.
    pub fn stdio() -> (r: Self)
        ensures
            r == (Io { input: FdRead(0), output: FdWrite(1), error: FdWrite(2) }),
    {
        Io { input: FdRead(0), output: FdWrite(1), error: FdWrite(2) }
    }

    pub fn set_input(self, input: FdRead) -> (r: Self)
        ensures
            r == (Io { input, ..self }),
    {
        Io { input, output: self.output, error: self.error }
    }

    pub fn set_output(self, output: FdWrite) -> (r: Self)
        ensures
            r == (Io { output, ..self }),
    {
        Io { input: self.input, output, error: self.error }
    }

    pub fn set_error(self, error: FdWrite) -> (r: Self)
        ensures
            r == (Io { error, ..self }),
    {
        Io { input: self.input, output: self.output, error }
    }

    /// The descriptors of the left and of the right side of a pipe.
    pub fn connect(self, pipe: Pipe, read: FdRead, write: FdWrite) -> (r: (Io, Io))
        ensures
            r == connected(self, pipe, read, write),
    {
        let lhs = match pipe {
            Pipe::Stdout => self.set_output(write),
            Pipe::Stderr => self.set_error(write),
            Pipe::Both => self.set_output(write).set_error(write),
        };
        (lhs, self.set_input(read))
    }
}

} // verus!
