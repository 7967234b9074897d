use bfpp::codegen::{first_unmatched_close, CodeGen, GenError, ProcEntry};
use bfpp::ir::{Block, BlockId, FuncName, Function, Inst, Label, Unit};
use bfpp::lexer::Lexer;
use bfpp::op::Op;

fn lex(text: &str) -> Vec<Op> {
    Lexer::new(text.chars().collect()).run()
}

fn generate(text: &str) -> CodeGen {
    let mut generator = CodeGen::new(lex(text));
    generator.run();
    generator
}

fn at(func: usize, index: usize) -> BlockId {
    BlockId { func, index }
}

fn block(label: Label, insts: Vec<Inst>) -> Block {
    Block { label, insts }
}

#[test]
fn starts_with_an_empty_main() {
    let generator = CodeGen::new(Vec::new());
    let expected = Unit {
        funcs: vec![Function { name: FuncName::Main, blocks: vec![block(Label::Entry, vec![])] }],
    };
    assert_eq!(generator.unit(), &expected);
    assert_eq!(generator.cursor(), at(0, 0));
    assert_eq!(generator.loop_depth(), 0);
    assert_eq!(generator.scope_depth(), 1);
    assert_eq!(generator.proc_entry('!'), None);
    assert!(generator.unit().is_sound());
}

#[test]
fn the_empty_program_only_returns() {
    let generator = generate("");
    assert_eq!(generator.unit().funcs[0].blocks[0].insts, vec![Inst::ReturnZero]);
}

#[test]
fn takes_pointer_and_cell_runs() {
    let generator = generate(">>><<+++++--");
    assert_eq!(
        generator.unit().funcs[0].blocks[0].insts,
        vec![
            Inst::MovePointer { slot: 0, back: false, count: 3 },
            Inst::MovePointer { slot: 0, back: true, count: 2 },
            Inst::ChangeCell { slot: 0, down: false, amount: 5 },
            Inst::ChangeCell { slot: 0, down: true, amount: 2 },
            Inst::ReturnZero,
        ]
    );
}

#[test]
fn takes_input_and_output() {
    let generator = generate(",.");
    assert_eq!(
        generator.unit().funcs[0].blocks[0].insts,
        vec![Inst::Input { slot: 0 }, Inst::Output { slot: 0 }, Inst::ReturnZero]
    );
}

#[test]
fn takes_a_cell_run_as_a_byte() {
    let mut generator = CodeGen::new(Vec::new());
    generator.val_manipulate(300, false);
    generator.val_manipulate(256, true);
    generator.val_manipulate(255, false);
    assert_eq!(
        generator.unit().funcs[0].blocks[0].insts,
        vec![
            Inst::ChangeCell { slot: 0, down: false, amount: 44 },
            Inst::ChangeCell { slot: 0, down: true, amount: 0 },
            Inst::ChangeCell { slot: 0, down: false, amount: 255 },
        ]
    );
}

#[test]
fn keeps_a_pointer_run_whole() {
    let mut generator = CodeGen::new(Vec::new());
    generator.ptr_manipulate(70000, true);
    assert_eq!(
        generator.unit().funcs[0].blocks[0].insts,
        vec![Inst::MovePointer { slot: 0, back: true, count: 70000 }]
    );
}

#[test]
fn a_loop_makes_three_blocks() {
    let generator = generate("[-]");
    let expected = Unit {
        funcs: vec![Function {
            name: FuncName::Main,
            blocks: vec![
                block(Label::Entry, vec![Inst::Jump { target: at(0, 1) }]),
                block(
                    Label::Cond,
                    vec![Inst::Branch { slot: 0, if_nonzero: at(0, 2), if_zero: at(0, 3) }],
                ),
                block(
                    Label::Body,
                    vec![
                        Inst::ChangeCell { slot: 0, down: true, amount: 1 },
                        Inst::Jump { target: at(0, 1) },
                    ],
                ),
                block(Label::End, vec![Inst::ReturnZero]),
            ],
        }],
    };
    assert_eq!(generator.unit(), &expected);
    assert_eq!(generator.cursor(), at(0, 3));
    assert_eq!(generator.loop_depth(), 0);
}

#[test]
fn loop_start_moves_the_cursor_to_the_body() {
    let mut generator = CodeGen::new(Vec::new());
    generator.loop_start();
    assert_eq!(generator.cursor(), at(0, 2));
    assert_eq!(generator.loop_depth(), 1);
    generator.loop_start();
    assert_eq!(generator.cursor(), at(0, 5));
    assert_eq!(generator.loop_depth(), 2);
    generator.loop_end();
    assert_eq!(generator.cursor(), at(0, 6));
    assert_eq!(generator.loop_depth(), 1);
    generator.loop_end();
    assert_eq!(generator.cursor(), at(0, 3));
    assert_eq!(generator.loop_depth(), 0);
    let blocks = &generator.unit().funcs[0].blocks;
    assert_eq!(blocks.len(), 7);
    assert_eq!(blocks[2].insts, vec![Inst::Jump { target: at(0, 4) }]);
    assert_eq!(blocks[6].insts, vec![Inst::Jump { target: at(0, 1) }]);
    assert_eq!(
        blocks[4].insts,
        vec![Inst::Branch { slot: 0, if_nonzero: at(0, 5), if_zero: at(0, 6) }]
    );
}

#[test]
fn a_well_nested_program_leaves_no_loop_open() {
    for text in ["", "[]", "[[]][]", "+[>[-]<-]", "[[[[]]]]", "![]!"] {
        let ops = lex(text);
        let opens = ops.iter().filter(|op| **op == Op::LLoop).count();
        let closes = ops.iter().filter(|op| **op == Op::RLoop).count();
        assert_eq!(opens, closes);
        assert_eq!(first_unmatched_close(&ops), None);
        let mut generator = CodeGen::new(ops);
        generator.run();
        assert_eq!(generator.loop_depth(), 0);
        assert!(generator.unit().is_sound());
    }
}

#[test]
fn an_open_loop_stays_on_the_stack() {
    let generator = generate("[[]");
    assert_eq!(generator.loop_depth(), 1);
}

#[test]
fn finds_the_first_unmatched_close() {
    assert_eq!(first_unmatched_close(&lex("]")), Some(0));
    assert_eq!(first_unmatched_close(&lex("[]]")), Some(2));
    assert_eq!(first_unmatched_close(&lex("+[-]+]+[")), Some(5));
    assert_eq!(first_unmatched_close(&lex("][")), Some(0));
    assert_eq!(first_unmatched_close(&lex("[[]")), None);
    assert_eq!(first_unmatched_close(&lex("")), None);
}

#[test]
fn the_first_mention_opens_a_definition() {
    let mut generator = CodeGen::new(Vec::new());
    generator.proc('!');
    assert_eq!(generator.cursor(), at(1, 0));
    assert_eq!(generator.scope_depth(), 2);
    assert_eq!(generator.proc_entry('!'), Some(ProcEntry { func: 1, ready: false }));
    assert_eq!(generator.proc_entry('?'), None);
    let funcs = &generator.unit().funcs;
    assert_eq!(funcs.len(), 2);
    assert_eq!(funcs[1], Function { name: FuncName::Proc('!'), blocks: vec![block(Label::Entry, vec![])] });
    generator.val_manipulate(1, false);
    assert_eq!(
        generator.unit().funcs[1].blocks[0].insts,
        vec![Inst::ChangeCell { slot: 1, down: false, amount: 1 }]
    );
    assert!(generator.unit().funcs[0].blocks[0].insts.is_empty());
}

#[test]
fn the_second_mention_closes_the_definition() {
    let mut generator = CodeGen::new(Vec::new());
    generator.proc('!');
    generator.ptr_manipulate(2, false);
    generator.proc('!');
    assert_eq!(generator.cursor(), at(0, 0));
    assert_eq!(generator.scope_depth(), 1);
    assert_eq!(generator.proc_entry('!'), Some(ProcEntry { func: 1, ready: true }));
    assert_eq!(
        generator.unit().funcs[1].blocks[0].insts,
        vec![Inst::MovePointer { slot: 1, back: false, count: 2 }, Inst::ReturnVoid]
    );
}

#[test]
fn later_mentions_call_the_procedure() {
    let generator = generate("!+!!!!.");
    let expected = Unit {
        funcs: vec![
            Function {
                name: FuncName::Main,
                blocks: vec![block(
                    Label::Entry,
                    vec![
                        Inst::Call { callee: 1, slot: 0 },
                        Inst::Call { callee: 1, slot: 0 },
                        Inst::Call { callee: 1, slot: 0 },
                        Inst::Output { slot: 0 },
                        Inst::ReturnZero,
                    ],
                )],
            },
            Function {
                name: FuncName::Proc('!'),
                blocks: vec![block(
                    Label::Entry,
                    vec![Inst::ChangeCell { slot: 1, down: false, amount: 1 }, Inst::ReturnVoid],
                )],
            },
        ],
    };
    assert_eq!(generator.unit(), &expected);
    assert_eq!(generator.scope_depth(), 1);
    assert_eq!(generator.loop_depth(), 0);
}

#[test]
fn a_call_changes_neither_stack() {
    let mut generator = CodeGen::new(Vec::new());
    generator.proc('!');
    generator.proc('!');
    generator.loop_start();
    let cursor = generator.cursor();
    generator.proc('!');
    assert_eq!(generator.cursor(), cursor);
    assert_eq!(generator.loop_depth(), 1);
    assert_eq!(generator.scope_depth(), 1);
    assert_eq!(generator.unit().funcs.len(), 2);
}

#[test]
fn procedures_have_names_of_their_own() {
    let generator = generate("!+!@-@!@");
    let funcs = &generator.unit().funcs;
    assert_eq!(funcs.len(), 3);
    assert_eq!(funcs[1].name, FuncName::Proc('!'));
    assert_eq!(funcs[2].name, FuncName::Proc('@'));
    assert_eq!(
        funcs[0].blocks[0].insts,
        vec![
            Inst::Call { callee: 1, slot: 0 },
            Inst::Call { callee: 2, slot: 0 },
            Inst::ReturnZero
        ]
    );
    assert_eq!(generator.proc_entry('!'), Some(ProcEntry { func: 1, ready: true }));
    assert_eq!(generator.proc_entry('@'), Some(ProcEntry { func: 2, ready: true }));
    assert_eq!(generator.proc_entry('+'), None);
}

#[test]
fn a_procedure_can_call_an_earlier_one() {
    let generator = generate("!+!@!!@");
    assert_eq!(
        generator.unit().funcs[2].blocks[0].insts,
        vec![
            Inst::Call { callee: 1, slot: 2 },
            Inst::Call { callee: 1, slot: 2 },
            Inst::ReturnVoid
        ]
    );
}

#[test]
fn a_loop_in_a_procedure_gets_blocks_there() {
    let generator = generate("![-]!");
    let funcs = &generator.unit().funcs;
    assert_eq!(funcs[0].blocks.len(), 1);
    assert_eq!(funcs[1].blocks.len(), 4);
    assert_eq!(funcs[1].blocks[0].insts, vec![Inst::Jump { target: at(1, 1) }]);
    assert_eq!(
        funcs[1].blocks[1].insts,
        vec![Inst::Branch { slot: 1, if_nonzero: at(1, 2), if_zero: at(1, 3) }]
    );
    assert_eq!(funcs[1].blocks[3].insts, vec![Inst::ReturnVoid]);
    assert_eq!(funcs[0].blocks[0].insts, vec![Inst::ReturnZero]);
}

#[test]
fn after_a_definition_the_program_goes_on_in_its_last_block() {
    let generator = generate("[-]!+!.");
    let blocks = &generator.unit().funcs[0].blocks;
    assert_eq!(blocks.len(), 4);
    assert_eq!(blocks[3].insts, vec![Inst::Output { slot: 0 }, Inst::ReturnZero]);
}

#[test]
fn an_open_definition_stays_in_scope() {
    let generator = generate("!+");
    assert_eq!(generator.scope_depth(), 2);
    assert_eq!(generator.cursor(), at(1, 0));
    assert_eq!(
        generator.unit().funcs[1].blocks[0].insts,
        vec![Inst::ChangeCell { slot: 1, down: false, amount: 1 }, Inst::ReturnZero]
    );
}

#[test]
fn out_and_input_use_the_innermost_scope() {
    let mut generator = CodeGen::new(Vec::new());
    generator.out();
    generator.proc('#');
    generator.input();
    generator.out();
    assert_eq!(generator.unit().funcs[0].blocks[0].insts, vec![Inst::Output { slot: 0 }]);
    assert_eq!(
        generator.unit().funcs[1].blocks[0].insts,
        vec![Inst::Input { slot: 1 }, Inst::Output { slot: 1 }]
    );
}

#[test]
fn a_changed_unit_can_be_unsound() {
    let mut unit = Unit {
        funcs: vec![Function { name: FuncName::Main, blocks: vec![block(Label::Entry, vec![])] }],
    };
    assert!(unit.is_sound());
    unit.funcs[0].blocks[0].insts.push(Inst::Jump { target: at(0, 1) });
    assert!(!unit.is_sound());
    unit.funcs[0].blocks.push(block(Label::End, vec![Inst::Output { slot: 1 }]));
    assert!(!unit.is_sound());
    unit.funcs.push(Function { name: FuncName::Proc('x'), blocks: vec![] });
    assert!(!unit.is_sound());
    unit.funcs[1].blocks.push(block(Label::Entry, vec![Inst::Call { callee: 2, slot: 1 }]));
    assert!(!unit.is_sound());
    unit.funcs[1].blocks[0].insts[0] = Inst::Call { callee: 1, slot: 1 };
    assert!(unit.is_sound());
    unit.funcs[0].name = FuncName::Proc('y');
    assert!(!unit.is_sound());
    assert!(!Unit { funcs: vec![] }.is_sound());
}

#[test]
fn try_run_rejects_an_unmatched_close_and_emits_nothing() {
    let mut generator = CodeGen::new(lex("+[-]]+"));
    assert_eq!(generator.try_run(), Err(GenError::UnmatchedLoopEnd { at: 4 }));
    assert!(generator.unit().funcs[0].blocks[0].insts.is_empty());
    assert_eq!(generator.unit().funcs[0].blocks.len(), 1);
    assert_eq!(generator.loop_depth(), 0);
    let mut generator = CodeGen::new(lex("]"));
    assert_eq!(generator.try_run(), Err(GenError::UnmatchedLoopEnd { at: 0 }));
}

#[test]
fn try_run_counts_the_loops_that_are_open() {
    let mut generator = CodeGen::new(lex("]+]"));
    generator.loop_start();
    assert_eq!(generator.try_run(), Err(GenError::UnmatchedLoopEnd { at: 2 }));
    assert_eq!(generator.loop_depth(), 1);
    let mut generator = CodeGen::new(lex("]+"));
    generator.loop_start();
    assert_eq!(generator.try_run(), Ok(()));
    assert_eq!(generator.loop_depth(), 0);
}

#[test]
fn try_run_runs_a_program_without_unmatched_close() {
    let mut generator = CodeGen::new(lex("[-]"));
    assert_eq!(generator.try_run(), Ok(()));
    assert_eq!(generator.unit(), generate("[-]").unit());
    let unit = generator.into_unit();
    assert_eq!(unit.funcs[0].blocks.len(), 4);
}

#[test]
fn a_pointer_run_in_a_definition_moves_the_procedures_position() {
    let mut generator = CodeGen::new(Vec::new());
    generator.ptr_manipulate(1, false);
    generator.proc('~');
    generator.ptr_manipulate(7, true);
    generator.proc('~');
    generator.ptr_manipulate(2, false);
    assert_eq!(
        generator.unit().funcs[0].blocks[0].insts,
        vec![
            Inst::MovePointer { slot: 0, back: false, count: 1 },
            Inst::MovePointer { slot: 0, back: false, count: 2 },
        ]
    );
    assert_eq!(
        generator.unit().funcs[1].blocks[0].insts,
        vec![Inst::MovePointer { slot: 1, back: true, count: 7 }, Inst::ReturnVoid]
    );
    assert_eq!(generator.scope_depth(), 1);
}

#[test]
fn the_registry_keeps_each_name_with_its_function() {
    let generator = generate("!+!@-@#.#!@#");
    for (ident, func) in [('!', 1), ('@', 2), ('#', 3)] {
        assert_eq!(generator.proc_entry(ident), Some(ProcEntry { func, ready: true }));
        assert_eq!(generator.unit().funcs[func].name, FuncName::Proc(ident));
    }
    assert_eq!(generator.unit().funcs.len(), 4);
}

#[test]
fn a_sound_unit_calls_procedures_only() {
    let mut unit = Unit {
        funcs: vec![
            Function {
                name: FuncName::Main,
                blocks: vec![block(Label::Entry, vec![Inst::Call { callee: 1, slot: 0 }])],
            },
            Function { name: FuncName::Proc('!'), blocks: vec![block(Label::Entry, vec![])] },
        ],
    };
    assert!(unit.is_sound());
    unit.funcs[0].blocks[0].insts[0] = Inst::Call { callee: 0, slot: 0 };
    assert!(!unit.is_sound());
}
