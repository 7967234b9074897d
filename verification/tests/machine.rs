use bfpp::codegen::CodeGen;
use bfpp::ir::{Block, BlockId, FuncName, Function, Inst, Label, Unit};
use bfpp::lexer::Lexer;
use bfpp::machine::{run_unit, Machine, Status};

fn compile(text: &str) -> CodeGen {
    let ops = Lexer::new(text.chars().collect()).run();
    let mut generator = CodeGen::new(ops);
    generator.run();
    generator
}

fn run(text: &str, input: &[u8]) -> (Status, Vec<u8>) {
    let generator = compile(text);
    let machine = run_unit(generator.unit(), input.to_vec(), 1_000_000);
    (machine.status(), machine.output().clone())
}

#[test]
fn doubles_a_cell_in_a_loop() {
    assert_eq!(run("+++++[->++<]>.", &[]), (Status::Finished, vec![10]));
}

#[test]
fn writes_the_length_of_a_run() {
    assert_eq!(run("++++++++.", &[]), (Status::Finished, vec![8]));
}

#[test]
fn calls_a_procedure_three_times() {
    assert_eq!(run("!+!!!!.", &[]), (Status::Finished, vec![3]));
}

#[test]
fn a_run_of_256_leaves_the_cell() {
    let text: String = std::iter::repeat('+').take(256).chain(".".chars()).collect();
    assert_eq!(run(&text, &[]), (Status::Finished, vec![0]));
}

#[test]
fn increments_wrap_after_256() {
    let text: String = std::iter::repeat("+ ").take(256).chain(std::iter::once(".")).collect();
    assert_eq!(run(&text, &[]), (Status::Finished, vec![0]));
    let text: String = std::iter::repeat("+ ").take(257).chain(std::iter::once(".")).collect();
    assert_eq!(run(&text, &[]), (Status::Finished, vec![1]));
}

#[test]
fn a_decrement_of_zero_gives_255() {
    assert_eq!(run("-.", &[]), (Status::Finished, vec![255]));
    assert_eq!(run("+++-----.", &[]), (Status::Finished, vec![254]));
}

#[test]
fn a_procedure_leaves_the_callers_position() {
    assert_eq!(run("!>>+!+!.>>.", &[]), (Status::Finished, vec![1, 1]));
    assert_eq!(run("!>+++!>!.>.", &[]), (Status::Finished, vec![0, 3]));
}

#[test]
fn a_procedure_works_where_the_caller_stands() {
    assert_eq!(run("!++!>>!<<.>>.", &[]), (Status::Finished, vec![0, 2]));
}

#[test]
fn reads_the_input_in_order() {
    assert_eq!(run(",.,.", &[65, 66]), (Status::Finished, vec![65, 66]));
    assert_eq!(run(",+.", &[255]), (Status::Finished, vec![0]));
}

#[test]
fn reads_255_at_the_end_of_the_input() {
    assert_eq!(run(",.,.", &[7]), (Status::Finished, vec![7, 255]));
}

#[test]
fn copies_the_input_up_to_a_zero() {
    assert_eq!(run(",[.,]", &[104, 105, 0, 33]), (Status::Finished, vec![104, 105]));
}

#[test]
fn a_cell_off_the_tape_is_a_fault() {
    assert_eq!(run("<+", &[]).0, Status::Fault);
    let text: String = std::iter::repeat('>').take(1000).chain(".".chars()).collect();
    assert_eq!(run(&text, &[]).0, Status::Fault);
    let text: String = std::iter::repeat('>').take(999).chain(".".chars()).collect();
    assert_eq!(run(&text, &[]), (Status::Finished, vec![0]));
}

#[test]
fn the_pointer_may_leave_the_tape_and_come_back() {
    assert_eq!(run("<>+.", &[]), (Status::Finished, vec![1]));
}

#[test]
fn a_loop_without_end_uses_up_the_fuel() {
    let generator = compile("+[]");
    let machine = run_unit(generator.unit(), Vec::new(), 1000);
    assert_eq!(machine.status(), Status::Running);
    assert!(machine.output().is_empty());
}

#[test]
fn an_open_definition_is_a_fault() {
    assert_eq!(run("!+", &[]).0, Status::Fault);
}

#[test]
fn a_block_without_a_last_step_is_a_fault() {
    let unit = Unit {
        funcs: vec![Function {
            name: FuncName::Main,
            blocks: vec![Block {
                label: Label::Entry,
                insts: vec![Inst::ChangeCell { slot: 0, down: false, amount: 1 }],
            }],
        }],
    };
    let machine = run_unit(&unit, Vec::new(), 10);
    assert_eq!(machine.status(), Status::Fault);
    assert_eq!(machine.tape()[0], 1);
}

#[test]
fn a_jump_into_another_function_is_a_fault() {
    let unit = Unit {
        funcs: vec![
            Function {
                name: FuncName::Main,
                blocks: vec![Block {
                    label: Label::Entry,
                    insts: vec![Inst::Jump { target: BlockId { func: 1, index: 0 } }],
                }],
            },
            Function {
                name: FuncName::Proc('!'),
                blocks: vec![Block { label: Label::Entry, insts: vec![Inst::ReturnVoid] }],
            },
        ],
    };
    assert_eq!(run_unit(&unit, Vec::new(), 10).status(), Status::Fault);
}

#[test]
fn steps_one_at_a_time() {
    let generator = compile("+>.");
    let mut machine = Machine::new(Vec::new());
    assert_eq!(machine.status(), Status::Running);
    assert_eq!(machine.tape().len(), 1000);
    machine.step(generator.unit());
    assert_eq!(machine.tape()[0], 1);
    machine.step(generator.unit());
    machine.step(generator.unit());
    assert_eq!(machine.output(), &vec![0]);
    assert_eq!(machine.status(), Status::Running);
    machine.step(generator.unit());
    assert_eq!(machine.status(), Status::Finished);
    machine.step(generator.unit());
    assert_eq!(machine.status(), Status::Finished);
    assert_eq!(machine.output(), &vec![0]);
}

#[test]
fn run_stops_when_the_fuel_is_used_up() {
    let generator = compile("+++.");
    let mut machine = Machine::new(Vec::new());
    machine.run(generator.unit(), 0);
    assert_eq!(machine.tape()[0], 0);
    machine.run(generator.unit(), 1);
    assert_eq!(machine.tape()[0], 3);
    assert!(machine.output().is_empty());
    machine.run(generator.unit(), 100);
    assert_eq!(machine.status(), Status::Finished);
    assert_eq!(machine.output(), &vec![3]);
}

#[test]
fn counts_down_through_nested_loops() {
    assert_eq!(run("++[>+++[>++<-]<-]>>.", &[]), (Status::Finished, vec![12]));
}
