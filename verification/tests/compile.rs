use bfpp::codegen::CodeGen;
use bfpp::compile::{compile, CompileError};
use bfpp::ir::{Block, FuncName, Function, Inst, Label, Unit};
use bfpp::lexer::Lexer;
use bfpp::machine::{run_unit, Status};

fn chars(text: &str) -> Vec<char> {
    text.chars().collect()
}

#[test]
fn compiles_a_program() {
    let expected = Unit {
        funcs: vec![Function {
            name: FuncName::Main,
            blocks: vec![Block {
                label: Label::Entry,
                insts: vec![
                    Inst::ChangeCell { slot: 0, down: false, amount: 2 },
                    Inst::Output { slot: 0 },
                    Inst::ReturnZero,
                ],
            }],
        }],
    };
    assert_eq!(compile(chars("++ .")), Ok(expected));
}

#[test]
fn compile_does_what_the_stages_do() {
    for text in ["", "+++++[->++<]>.", "!+!!!!.", "[[", "!>"] {
        let ops = Lexer::new(chars(text)).run();
        let mut generator = CodeGen::new(ops);
        generator.run();
        let unit = compile(chars(text)).unwrap();
        assert_eq!(&unit, generator.unit());
        assert!(unit.is_sound());
    }
}

#[test]
fn compile_rejects_an_alphanumeric_character() {
    assert_eq!(
        compile(chars("+\n+b]")),
        Err(CompileError::IllegalCharacter { position: 3, character: 'b' })
    );
    assert_eq!(
        compile(chars("]0")),
        Err(CompileError::IllegalCharacter { position: 1, character: '0' })
    );
}

#[test]
fn compile_rejects_an_unmatched_close() {
    assert_eq!(compile(chars("++ ] [")), Err(CompileError::UnmatchedLoopEnd { at: 1 }));
    assert_eq!(compile(chars("[][]]")), Err(CompileError::UnmatchedLoopEnd { at: 4 }));
}

#[test]
fn a_compiled_program_runs() {
    let unit = compile(chars("+++++[->++<]>.")).unwrap();
    let machine = run_unit(&unit, Vec::new(), 10_000);
    assert_eq!(machine.status(), Status::Finished);
    assert_eq!(machine.output(), &vec![10]);
}
