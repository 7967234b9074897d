use bfpp::codegen::CodeGen;
use bfpp::backend::{
    answer, build, constant_of, emit, function_name, function_signature, kind_bits, label_name, lower,
    runtime_name, runtime_signature, Backend, EmitError, Fault,
};
use bfpp::ir::{BlockId, FuncName, Label};
use bfpp::lexer::Lexer;
use bfpp::plan::{plan, Action, Args, Callee, Kind, Operand, Signature, Takes};
use inkwell::builder::BuilderError;
use inkwell::context::Context;

fn compile(text: &str) -> CodeGen {
    let ops = Lexer::new(text.chars().collect()).run();
    let mut generator = CodeGen::new(ops);
    generator.run();
    generator
}

fn entry_of_main() -> Vec<Action> {
    vec![
        Action::Declare { name: FuncName::Main },
        Action::AppendBlock { func: 0, label: Label::Entry },
        Action::Position { at: BlockId { func: 0, index: 0 } },
        Action::Alloca,
        Action::Call {
            callee: Callee::Calloc,
            args: Args::Two(Operand::Word(1000), Operand::Word(1)),
            result: true,
        },
        Action::Store { to: Operand::Slot(0), value: Operand::Recent(0) },
        Action::Position { at: BlockId { func: 0, index: 0 } },
    ]
}

#[test]
fn plans_the_empty_program() {
    let generator = compile("");
    let mut expected = entry_of_main();
    expected.push(Action::Return { value: Operand::Byte(0) });
    assert_eq!(plan(generator.unit()), expected);
}

#[test]
fn plans_each_step() {
    let generator = compile(">><+-.,");
    let mut expected = entry_of_main();
    expected.extend([
        Action::Load { from: Operand::Slot(0) },
        Action::PtrToInt { value: Operand::Recent(0) },
        Action::Add { lhs: Operand::Recent(0), rhs: Operand::Word(2) },
        Action::IntToPtr { value: Operand::Recent(0) },
        Action::Store { to: Operand::Slot(0), value: Operand::Recent(0) },
        Action::Load { from: Operand::Slot(0) },
        Action::PtrToInt { value: Operand::Recent(0) },
        Action::Sub { lhs: Operand::Recent(0), rhs: Operand::Word(1) },
        Action::IntToPtr { value: Operand::Recent(0) },
        Action::Store { to: Operand::Slot(0), value: Operand::Recent(0) },
        Action::Load { from: Operand::Slot(0) },
        Action::Load { from: Operand::Recent(0) },
        Action::Add { lhs: Operand::Recent(0), rhs: Operand::Byte(1) },
        Action::Store { to: Operand::Recent(2), value: Operand::Recent(0) },
        Action::Load { from: Operand::Slot(0) },
        Action::Load { from: Operand::Recent(0) },
        Action::Sub { lhs: Operand::Recent(0), rhs: Operand::Byte(1) },
        Action::Store { to: Operand::Recent(2), value: Operand::Recent(0) },
        Action::Load { from: Operand::Slot(0) },
        Action::Load { from: Operand::Recent(0) },
        Action::ZeroExtend { value: Operand::Recent(0) },
        Action::Call {
            callee: Callee::Putchar,
            args: Args::One(Operand::Recent(0)),
            result: true,
        },
        Action::Load { from: Operand::Slot(0) },
        Action::Call { callee: Callee::Getchar, args: Args::Nothing, result: true },
        Action::Store { to: Operand::Recent(1), value: Operand::Recent(0) },
        Action::Return { value: Operand::Byte(0) },
    ]);
    assert_eq!(plan(generator.unit()), expected);
}

#[test]
fn plans_a_loop() {
    let generator = compile("[]");
    let at = |index| BlockId { func: 0, index };
    let expected = vec![
        Action::Declare { name: FuncName::Main },
        Action::AppendBlock { func: 0, label: Label::Entry },
        Action::AppendBlock { func: 0, label: Label::Cond },
        Action::AppendBlock { func: 0, label: Label::Body },
        Action::AppendBlock { func: 0, label: Label::End },
        Action::Position { at: at(0) },
        Action::Alloca,
        Action::Call {
            callee: Callee::Calloc,
            args: Args::Two(Operand::Word(1000), Operand::Word(1)),
            result: true,
        },
        Action::Store { to: Operand::Slot(0), value: Operand::Recent(0) },
        Action::Position { at: at(0) },
        Action::Jump { target: at(1) },
        Action::Position { at: at(1) },
        Action::Load { from: Operand::Slot(0) },
        Action::Load { from: Operand::Recent(0) },
        Action::CompareNe { lhs: Operand::Recent(0), rhs: Operand::Byte(0) },
        Action::Branch { on: Operand::Recent(0), then: at(2), otherwise: at(3) },
        Action::Position { at: at(2) },
        Action::Jump { target: at(1) },
        Action::Position { at: at(3) },
        Action::Return { value: Operand::Byte(0) },
    ];
    assert_eq!(plan(generator.unit()), expected);
}

#[test]
fn plans_a_procedure() {
    let generator = compile("!+!!");
    let expected = vec![
        Action::Declare { name: FuncName::Main },
        Action::AppendBlock { func: 0, label: Label::Entry },
        Action::Position { at: BlockId { func: 0, index: 0 } },
        Action::Alloca,
        Action::Call {
            callee: Callee::Calloc,
            args: Args::Two(Operand::Word(1000), Operand::Word(1)),
            result: true,
        },
        Action::Store { to: Operand::Slot(0), value: Operand::Recent(0) },
        Action::Declare { name: FuncName::Proc('!') },
        Action::AppendBlock { func: 1, label: Label::Entry },
        Action::Position { at: BlockId { func: 1, index: 0 } },
        Action::Alloca,
        Action::Param { func: 1 },
        Action::Store { to: Operand::Slot(1), value: Operand::Recent(0) },
        Action::Position { at: BlockId { func: 0, index: 0 } },
        Action::Load { from: Operand::Slot(0) },
        Action::Call {
            callee: Callee::Function(1),
            args: Args::One(Operand::Recent(0)),
            result: false,
        },
        Action::Return { value: Operand::Byte(0) },
        Action::Position { at: BlockId { func: 1, index: 0 } },
        Action::Load { from: Operand::Slot(1) },
        Action::Load { from: Operand::Recent(0) },
        Action::Add { lhs: Operand::Recent(0), rhs: Operand::Byte(1) },
        Action::Store { to: Operand::Recent(2), value: Operand::Recent(0) },
        Action::ReturnVoid,
    ];
    assert_eq!(plan(generator.unit()), expected);
}

#[test]
fn builds_the_module_of_a_small_program() {
    let ctx = Context::create();
    let generator = compile("+.");
    let module = lower(&ctx, generator.unit()).unwrap();
    let expected = "\
; ModuleID = 'main'
source_filename = \"main\"

declare i8 @putchar(i32)

declare i8 @getchar()

declare i8* @calloc(i64, i64)

define i8 @main() {
entry:
  %ptr = alloca i8*, align 8
  %call = call i8* @calloc(i64 1000, i64 1)
  store i8* %call, i8** %ptr, align 8
  %load = load i8*, i8** %ptr, align 8
  %load1 = load i8, i8* %load, align 1
  %add = add i8 %load1, 1
  store i8 %add, i8* %load, align 1
  %load2 = load i8*, i8** %ptr, align 8
  %load3 = load i8, i8* %load2, align 1
  %wide = zext i8 %load3 to i32
  %call4 = call i8 @putchar(i32 %wide)
  ret i8 0
}
";
    assert_eq!(module.print_to_string().to_string(), expected);
    assert!(module.verify().is_ok());
}

#[test]
fn builds_modules_that_the_backend_finds_valid() {
    let ctx = Context::create();
    for text in [
        "",
        "+++++[->++<]>.",
        "++++++++.",
        "!+!!!!.",
        ",[.,]",
        ">>><<<+-",
        "![-]>!+[>!<-]",
        "!+!@!!@@",
    ] {
        let generator = compile(text);
        let module = lower(&ctx, generator.unit()).unwrap();
        let text = module.print_to_string().to_string();
        assert!(module.verify().is_ok(), "{}", text);
    }
}

#[test]
fn names_a_procedure_by_its_character() {
    let ctx = Context::create();
    let generator = compile("!+!!");
    let module = lower(&ctx, generator.unit()).unwrap();
    assert!(module.get_function("!").is_some());
    assert!(module.get_function("main").is_some());
    assert!(module.get_function("putchar").is_some());
    assert!(module.get_function("getchar").is_some());
    assert!(module.get_function("calloc").is_some());
    assert_eq!(module.get_function("!").unwrap().count_params(), 1);
    assert_eq!(module.get_function("main").unwrap().count_basic_blocks(), 1);
    assert_eq!(module.get_function("main").unwrap().count_params(), 0);
}

#[test]
fn appends_the_blocks_of_a_loop_in_order() {
    let ctx = Context::create();
    let generator = compile("[-]");
    let module = lower(&ctx, generator.unit()).unwrap();
    let main = module.get_function("main").unwrap();
    let names: Vec<String> = main
        .get_basic_blocks()
        .iter()
        .map(|block| block.get_name().to_str().unwrap().to_string())
        .collect();
    assert_eq!(names, vec!["entry", "cond_block", "body_block", "end_block"]);
}

#[test]
fn refuses_an_action_that_names_what_is_not_there() {
    let ctx = Context::create();
    let actions = vec![
        Action::Declare { name: FuncName::Main },
        Action::AppendBlock { func: 1, label: Label::Entry },
    ];
    assert_eq!(emit(&ctx, &actions).err(), Some(EmitError::Unfit { at: 1 }));
    let actions = vec![Action::Load { from: Operand::Recent(0) }];
    assert_eq!(emit(&ctx, &actions).err(), Some(EmitError::Unfit { at: 0 }));
    let mut actions = entry_of_main();
    actions.push(Action::Store { to: Operand::Slot(1), value: Operand::Byte(0) });
    assert_eq!(emit(&ctx, &actions).err(), Some(EmitError::Unfit { at: 7 }));
    let mut actions = entry_of_main();
    actions.push(Action::Jump { target: BlockId { func: 0, index: 1 } });
    assert_eq!(emit(&ctx, &actions).err(), Some(EmitError::Unfit { at: 7 }));
}

#[test]
fn reports_what_the_backend_refuses() {
    let ctx = Context::create();
    let actions = vec![
        Action::Declare { name: FuncName::Main },
        Action::AppendBlock { func: 0, label: Label::Entry },
        Action::Alloca,
    ];
    assert_eq!(emit(&ctx, &actions).err(), Some(EmitError::Refused { at: 2 }));
    let actions = vec![
        Action::Declare { name: FuncName::Main },
        Action::AppendBlock { func: 0, label: Label::Entry },
        Action::Jump { target: BlockId { func: 0, index: 0 } },
    ];
    assert_eq!(emit(&ctx, &actions).err(), Some(EmitError::Refused { at: 2 }));
    let actions = vec![Action::ReturnVoid];
    assert_eq!(emit(&ctx, &actions).err(), Some(EmitError::Refused { at: 0 }));
}

#[test]
fn declaring_appending_and_going_to_a_block_never_fail() {
    let ctx = Context::create();
    let mut backend = Backend::new(&ctx);
    for name in [FuncName::Main, FuncName::Proc('!'), FuncName::Proc('\0'), FuncName::Main] {
        assert_eq!(backend.perform(Action::Declare { name }), Ok(()));
    }
    for func in 0..4 {
        for label in [Label::Entry, Label::Cond, Label::Body, Label::End, Label::Entry] {
            assert_eq!(backend.perform(Action::AppendBlock { func, label }), Ok(()));
        }
        for index in 0..5 {
            assert_eq!(backend.perform(Action::Position { at: BlockId { func, index } }), Ok(()));
        }
        assert_eq!(
            backend.perform(Action::Position { at: BlockId { func, index: 5 } }),
            Err(Fault::Unfit)
        );
    }
    assert_eq!(
        backend.perform(Action::AppendBlock { func: 4, label: Label::Entry }),
        Err(Fault::Unfit)
    );
}

#[test]
fn performs_one_action_at_a_time() {
    let ctx = Context::create();
    let mut backend = Backend::new(&ctx);
    assert!(backend.fits(Action::Declare { name: FuncName::Main }));
    assert!(!backend.fits(Action::Param { func: 0 }));
    assert_eq!(backend.perform(Action::Param { func: 0 }), Err(Fault::Unfit));
    assert_eq!(backend.perform(Action::Declare { name: FuncName::Main }), Ok(()));
    assert!(backend.fits(Action::Param { func: 0 }));
    assert!(!backend.kinded(Action::Param { func: 0 }));
    assert_eq!(backend.perform(Action::Param { func: 0 }), Err(Fault::Mismatch));
    assert_eq!(backend.perform(Action::ReturnVoid), Err(Fault::Refused));
    assert_eq!(
        backend.perform(Action::AppendBlock { func: 0, label: Label::Entry }),
        Ok(())
    );
    assert_eq!(
        backend.perform(Action::Position { at: BlockId { func: 0, index: 0 } }),
        Ok(())
    );
    assert_eq!(backend.perform(Action::Return { value: Operand::Byte(0) }), Ok(()));
    assert!(backend.module().get_function("main").is_some());
    let module = backend.into_module();
    assert!(module.verify().is_ok());
}

#[test]
fn emits_the_empty_plan() {
    let ctx = Context::create();
    let module = emit(&ctx, &Vec::new()).unwrap();
    assert!(module.get_function("main").is_none());
    assert!(module.get_function("putchar").is_some());
}

#[test]
fn a_definition_that_crosses_a_loop_gives_a_module_that_is_not_valid() {
    let ctx = Context::create();
    for text in ["[!]", "![!]+-><.,!!", "[!]!+", "!@+@!"] {
        let generator = compile(text);
        assert!(generator.unit().is_sound());
        let module = lower(&ctx, generator.unit()).unwrap();
        assert!(module.verify().is_err(), "{}", text);
    }
}

#[test]
fn an_open_loop_gives_a_module_that_is_not_valid() {
    let ctx = Context::create();
    let generator = compile("[+");
    let module = lower(&ctx, generator.unit()).unwrap();
    assert!(module.verify().is_err());
}

#[test]
fn an_answer_of_the_builder_is_done_or_refused() {
    assert_eq!(answer(Ok(())), Ok(()));
    assert_eq!(answer(Err(BuilderError::UnsetPosition)), Err(Fault::Refused));
}

fn with_some_values() -> Vec<Action> {
    let mut actions = entry_of_main();
    actions.push(Action::Load { from: Operand::Slot(0) });
    actions.push(Action::PtrToInt { value: Operand::Recent(0) });
    actions
}

#[test]
fn finds_an_operand_of_the_wrong_kind_before_any_request() {
    let ctx = Context::create();
    let entry = BlockId { func: 0, index: 0 };
    for action in [
        Action::Store { to: Operand::Byte(1), value: Operand::Byte(1) },
        Action::Store { to: Operand::Recent(0), value: Operand::Byte(1) },
        Action::Store { to: Operand::Slot(0), value: Operand::Byte(1) },
        Action::Store { to: Operand::Recent(1), value: Operand::Recent(0) },
        Action::Load { from: Operand::Word(8) },
        Action::Load { from: Operand::Recent(0) },
        Action::PtrToInt { value: Operand::Recent(0) },
        Action::PtrToInt { value: Operand::Slot(0) },
        Action::IntToPtr { value: Operand::Slot(0) },
        Action::IntToPtr { value: Operand::Recent(1) },
        Action::IntToPtr { value: Operand::Byte(1) },
        Action::Add { lhs: Operand::Slot(0), rhs: Operand::Byte(1) },
        Action::Add { lhs: Operand::Byte(1), rhs: Operand::Word(2) },
        Action::Add { lhs: Operand::Recent(1), rhs: Operand::Recent(1) },
        Action::Sub { lhs: Operand::Byte(1), rhs: Operand::Recent(0) },
        Action::ZeroExtend { value: Operand::Recent(0) },
        Action::ZeroExtend { value: Operand::Word(2) },
        Action::CompareNe { lhs: Operand::Recent(0), rhs: Operand::Recent(1) },
        Action::CompareNe { lhs: Operand::Recent(0), rhs: Operand::Byte(2) },
        Action::Branch { on: Operand::Slot(0), then: entry, otherwise: entry },
        Action::Branch { on: Operand::Recent(0), then: entry, otherwise: entry },
        Action::Branch { on: Operand::Byte(1), then: entry, otherwise: entry },
        Action::Return { value: Operand::Recent(0) },
        Action::Return { value: Operand::Word(0) },
        Action::Call { callee: Callee::Putchar, args: Args::Nothing, result: true },
        Action::Call { callee: Callee::Putchar, args: Args::One(Operand::Byte(1)), result: true },
        Action::Call { callee: Callee::Getchar, args: Args::Nothing, result: false },
        Action::Call {
            callee: Callee::Calloc,
            args: Args::Two(Operand::Word(1), Operand::Byte(1)),
            result: true,
        },
        Action::Call {
            callee: Callee::Function(0),
            args: Args::One(Operand::Recent(1)),
            result: false,
        },
        Action::Param { func: 0 },
    ] {
        let mut actions = with_some_values();
        actions.push(action);
        assert_eq!(emit(&ctx, &actions).err(), Some(EmitError::Mismatch { at: 9 }), "{:?}", action);
    }
}

#[test]
fn a_mismatch_leaves_the_module_as_it_was() {
    let ctx = Context::create();
    let mut backend = Backend::new(&ctx);
    for action in with_some_values() {
        assert_eq!(backend.perform(action), Ok(()));
    }
    let before = backend.module().print_to_string().to_string();
    let action = Action::Add { lhs: Operand::Byte(1), rhs: Operand::Word(2) };
    assert!(backend.fits(action));
    assert!(!backend.kinded(action));
    assert_eq!(backend.perform(action), Err(Fault::Mismatch));
    assert_eq!(backend.module().print_to_string().to_string(), before);
    assert_eq!(backend.perform(Action::Return { value: Operand::Byte(0) }), Ok(()));
    assert!(backend.into_module().verify().is_ok());
}

#[test]
fn takes_operands_of_the_right_kind() {
    let ctx = Context::create();
    let mut actions = entry_of_main();
    actions.extend([
        Action::Load { from: Operand::Slot(0) },
        Action::Store { to: Operand::Recent(0), value: Operand::Byte(7) },
        Action::Store { to: Operand::Slot(0), value: Operand::Recent(0) },
        Action::PtrToInt { value: Operand::Recent(0) },
        Action::Add { lhs: Operand::Recent(0), rhs: Operand::Word(1) },
        Action::Sub { lhs: Operand::Recent(0), rhs: Operand::Recent(1) },
        Action::IntToPtr { value: Operand::Recent(0) },
        Action::Load { from: Operand::Recent(0) },
        Action::ZeroExtend { value: Operand::Recent(0) },
        Action::Call {
            callee: Callee::Putchar,
            args: Args::One(Operand::Recent(0)),
            result: true,
        },
        Action::CompareNe { lhs: Operand::Recent(0), rhs: Operand::Recent(2) },
        Action::ZeroExtend { value: Operand::Recent(0) },
        Action::Call { callee: Callee::Getchar, args: Args::Nothing, result: true },
        Action::Return { value: Operand::Recent(0) },
    ]);
    let module = emit(&ctx, &actions).unwrap();
    assert!(module.verify().is_ok(), "{}", module.print_to_string().to_string());
}

#[test]
fn names_the_functions_of_the_runtime() {
    assert_eq!(runtime_name(Callee::Putchar), "putchar");
    assert_eq!(runtime_name(Callee::Getchar), "getchar");
    assert_eq!(runtime_name(Callee::Calloc), "calloc");
    assert_eq!(function_name(FuncName::Main), "main");
    assert_eq!(function_name(FuncName::Proc('!')), "!");
    assert_eq!(function_name(FuncName::Proc('\u{2192}')), "\u{2192}");
    assert_eq!(label_name(Label::Entry), "entry");
    assert_eq!(label_name(Label::Cond), "cond_block");
    assert_eq!(label_name(Label::Body), "body_block");
    assert_eq!(label_name(Label::End), "end_block");
}

#[test]
fn gives_the_signatures_of_the_functions() {
    assert_eq!(
        runtime_signature(Callee::Putchar),
        Signature { gives: Some(Kind::Byte), takes: Takes::One(Kind::Wide) }
    );
    assert_eq!(
        runtime_signature(Callee::Getchar),
        Signature { gives: Some(Kind::Byte), takes: Takes::Nothing }
    );
    assert_eq!(
        runtime_signature(Callee::Calloc),
        Signature { gives: Some(Kind::Cell), takes: Takes::Two(Kind::Word, Kind::Word) }
    );
    assert_eq!(
        function_signature(FuncName::Main),
        Signature { gives: Some(Kind::Byte), takes: Takes::Nothing }
    );
    assert_eq!(
        function_signature(FuncName::Proc('!')),
        Signature { gives: None, takes: Takes::One(Kind::Cell) }
    );
}

#[test]
fn gives_the_widths_and_the_constants() {
    assert_eq!(kind_bits(Kind::Bit), 1);
    assert_eq!(kind_bits(Kind::Byte), 8);
    assert_eq!(kind_bits(Kind::Wide), 32);
    assert_eq!(kind_bits(Kind::Word), 64);
    assert_eq!(kind_bits(Kind::Cell), 0);
    assert_eq!(kind_bits(Kind::Slot), 0);
    assert_eq!(constant_of(Operand::Byte(200)), Some((Kind::Byte, 200)));
    assert_eq!(constant_of(Operand::Word(u64::MAX)), Some((Kind::Word, u64::MAX)));
    assert_eq!(constant_of(Operand::Slot(0)), None);
    assert_eq!(constant_of(Operand::Recent(0)), None);
}

#[test]
fn declares_the_functions_with_their_signatures() {
    let ctx = Context::create();
    let generator = compile("!+!!");
    let module = lower(&ctx, generator.unit()).unwrap();
    let ty = |name: &str| module.get_function(name).unwrap().get_type().print_to_string().to_string();
    assert_eq!(ty("putchar"), "i8 (i32)");
    assert_eq!(ty("getchar"), "i8 ()");
    assert_eq!(ty("calloc"), "i8* (i64, i64)");
    assert_eq!(ty("main"), "i8 ()");
    assert_eq!(ty("!"), "void (i8*)");
}

#[test]
fn build_gives_the_backend_with_its_module() {
    let ctx = Context::create();
    let mut actions = entry_of_main();
    actions.push(Action::Return { value: Operand::Byte(0) });
    let backend = build(&ctx, &actions).ok().unwrap();
    assert!(backend.fits(Action::Load { from: Operand::Recent(0) }));
    assert!(!backend.fits(Action::Load { from: Operand::Recent(1) }));
    assert!(backend.kinded(Action::Load { from: Operand::Recent(0) }));
    assert_eq!(
        backend.module().print_to_string().to_string(),
        emit(&ctx, &actions).unwrap().print_to_string().to_string()
    );
    assert!(backend.into_module().verify().is_ok());
    assert_eq!(
        build(&ctx, &vec![Action::Alloca]).err(),
        Some(EmitError::Refused { at: 0 })
    );
}

