use vstd::prelude::*;

verus! {

/// One instruction of the flat stream that the lexer hands to the generator.
///
/// Loops and procedure bodies are not nested in the stream: `LLoop`, `RLoop` and
/// `Proc` are plain markers, and the generator pairs them up as it goes.
#[derive(Clone, Copy, Debug, PartialEq, Eq, Structural)]
pub enum Op {
    /// A run of `>`: move the tape pointer forward by the run's length.
    PointerInc(usize),
    /// A run of `<`: move the tape pointer back by the run's length.
    PointerDec(usize),
    /// A run of `+`: add the run's length to the current cell.
    ValueInc(usize),
    /// A run of `-`: subtract the run's length from the current cell.
    ValueDec(usize),
    /// `.`: write the current cell.
    Output,
    /// `,`: read one byte into the current cell.
    Input,
    /// `[`: open a loop.
    LLoop,
    /// `]`: close the innermost open loop.
    RLoop,
    /// Any other legal character: open, close or call the procedure of that name.
    Proc(char),
}

} // verus!
