//! The two output channels of a render.

use vstd::prelude::*;

verus! {

/// What a render has written: the image on `stdout`, and messages for the
/// person at the terminal on `stderr`. Both are kept in memory; whoever owns
/// the logger hands them on.
pub struct Logger {
    pub stdout: Vec<u8>,
    pub stderr: Vec<u8>,
}

impl Logger {
    /// A logger with nothing written.
    pub fn new() -> (r: Logger)
        ensures
            r.stdout@.len() == 0,
            r.stderr@.len() == 0,
    {
        Logger { stdout: Vec::new(), stderr: Vec::new() }
    }
}

/// Writes the message to the end of the stream.
pub fn log(stream: &mut Vec<u8>, message: Vec<u8>)
    ensures
        final(stream)@ == old(stream)@ + message@,
{
    let mut message = message;
    stream.append(&mut message);
}

} // verus!
