use crate::codegen::{after_run, initial_state, scan_depth, CodeGen, GenError};
use crate::ir::{unit_wf, Unit, UnitView};
use crate::lexer::{all_decided, all_legal, is_illegal, legal_between, lex, LexError, Lexer};
use crate::op::Op;
use vstd::prelude::*;

verus! {

/// Why a source is no program.
#[derive(Clone, Copy, Debug, PartialEq, Eq, Structural)]
pub enum CompileError {
    /// The source holds an alphanumeric character, at `position`.
    IllegalCharacter { position: usize, character: char },
    /// Instruction number `at` is a `]` that stands where no loop is open.
    UnmatchedLoopEnd { at: usize },
}

/// The unit of the program `source`.
pub open spec fn unit_of(source: Seq<char>) -> UnitView {
    after_run(initial_state(lex(source, 0))).unit
}

/// Compiles `source` to a unit. It fails at the first alphanumeric character;
/// if there is none, it fails at the first `]` that stands where no loop is open.
/// Of the first 128 characters the alphanumeric ones are the digits and the
/// letters, so that the outcome for a source of such characters is decided.
pub fn compile(source: Vec<char>) -> (outcome: Result<Unit, CompileError>)
    ensures
        match outcome {
            Ok(unit) => all_legal(source@, 0) && all_decided(source@, 0, source@.len() as int)
                && scan_depth(lex(source@, 0), 0) is Some
                && unit@ == unit_of(source@) && unit_wf(unit@),
            Err(CompileError::IllegalCharacter { position, character }) => position
                < source@.len() && character == source@[position as int] && is_illegal(character)
                && legal_between(source@, 0, position as int) && all_decided(
                source@,
                0,
                position + 1,
            ),
            Err(CompileError::UnmatchedLoopEnd { at }) => all_legal(source@, 0) && all_decided(
                source@,
                0,
                source@.len() as int,
            ) && at < lex(
                source@,
                0,
            ).len() && lex(source@, 0)[at as int] == Op::RLoop && scan_depth(
                lex(source@, 0).take(at as int),
                0,
            ) == Some(0nat),
        },
{
    let mut lexer = Lexer::new(source);
    let ops = match lexer.try_run() {
        Ok(ops) => ops,
        Err(LexError::IllegalCharacter { position, character }) => {
            return Err(CompileError::IllegalCharacter { position, character });
        },
    };
    let mut generator = CodeGen::new(ops);
    match generator.try_run() {
        Ok(()) => Ok(generator.into_unit()),
        Err(GenError::UnmatchedLoopEnd { at }) => Err(CompileError::UnmatchedLoopEnd { at }),
    }
}

} // verus!
