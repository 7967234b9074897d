use crate::ir::{unit_wf, BlockId, FuncName, Label, Unit};
use crate::llvm::{
    add_function, append_basic_block, build_alloca, build_call, build_conditional_branch,
    build_int_add, build_int_compare, build_int_sub, build_int_to_ptr, build_int_z_extend,
    build_load, build_ptr_to_int, build_return, build_store, build_unconditional_branch,
    call_result, char_to_string, const_int, create_builder, create_module,
    default_address_space, first_param, int_fn_type, int_of, int_type, not_equal,
    pointer_fn_type, pointer_of, pointer_type, position_at_end, value_of_int, value_of_pointer,
    void_fn_type, void_type,
};
use crate::plan::{
    action_fits, action_kinded, action_ok, args_match, asks_backend, block_fits, callee_signature,
    constant, empty_tables, integer_bits, is_pointer, label_text, lemma_plan_fits_at,
    lemma_plan_fits_empty, lemma_plan_fits_push, made_kind, name_signature, name_text,
    operand_fits, operand_kind, plan, plan_fits, plan_of, request_of, runtime_request,
    runtime_requests, runtime_text, tables_after, tables_after_action, Action, Args, Callee,
    Kind, Operand, Request, Signature, Tables, Takes,
};
use inkwell::basic_block::BasicBlock;
use inkwell::builder::{Builder, BuilderError};
use inkwell::context::Context;
use inkwell::module::Module;
use inkwell::types::{FunctionType, IntType, PointerType, VoidType};
use inkwell::values::{BasicValueEnum, FunctionValue, IntValue, PointerValue};
use vstd::prelude::*;

verus! {

/// Why one action was not carried out.
#[derive(Clone, Copy, Debug, PartialEq, Eq, Structural)]
pub enum Fault {
    /// The action names something that the actions before it have not made.
    Unfit,
    /// The action asks for a value of another kind than the one that it names.
    Mismatch,
    /// The backend refused the request, or answered with a value of another kind
    /// than the request makes.
    Refused,
}

/// Why a list of actions was not carried out. `at` is the index of the action
/// that failed.
#[derive(Clone, Copy, Debug, PartialEq, Eq, Structural)]
pub enum EmitError {
    /// Action `at` names something that the actions before it have not made.
    Unfit { at: usize },
    /// Action `at` asks for a value of another kind than the one that it names.
    Mismatch { at: usize },
    /// The backend refused the request of action `at`, or answered with a value of
    /// another kind than the request makes.
    Refused { at: usize },
}

/// The types of the module.
struct Types<'a> {
    byte: IntType<'a>,
    wide: IntType<'a>,
    word: IntType<'a>,
    cell_ptr: PointerType<'a>,
    void: VoidType<'a>,
}

/// The functions of the runtime, as the module declares them.
struct Runtime<'a> {
    putchar: FunctionValue<'a>,
    getchar: FunctionValue<'a>,
    calloc: FunctionValue<'a>,
}

/// A value that an action has made: a pointer or an integer.
#[derive(Clone, Copy)]
enum Value<'a> {
    Pointer(PointerValue<'a>),
    Integer(IntValue<'a>),
}

/// The module under construction in the backend, with the handles that the
/// actions so far have made.
pub struct Backend<'a> {
    ctx: &'a Context,
    builder: Builder<'a>,
    module: Module<'a>,
    types: Types<'a>,
    runtime: Runtime<'a>,
    funcs: Vec<FunctionValue<'a>>,
    names: Vec<FuncName>,
    blocks: Vec<Vec<BasicBlock<'a>>>,
    slots: Vec<PointerValue<'a>>,
    values: Vec<Value<'a>>,
    kinds: Vec<Kind>,
    asked: Ghost<Seq<Request>>,
}

/// The name that a block with the label `label` gets in the module.
pub fn label_name(label: Label) -> (name: &'static str)
    ensures
        name@ == label_text(label),
{
    match label {
        Label::Entry => "entry",
        Label::Cond => "cond_block",
        Label::Body => "body_block",
        Label::End => "end_block",
    }
}

/// The name under which a function of the runtime is declared.
pub fn runtime_name(callee: Callee) -> (name: &'static str)
    ensures
        name@ == runtime_text(callee),
{
    match callee {
        Callee::Putchar => "putchar",
        Callee::Getchar => "getchar",
        Callee::Calloc => "calloc",
        Callee::Function(_) => "",
    }
}

/// The name under which a function of the unit is declared.
pub fn function_name(name: FuncName) -> (text: String)
    ensures
        text@ == name_text(name),
{
    match name {
        FuncName::Main => "main".to_owned(),
        FuncName::Proc(ident) => char_to_string(ident),
    }
}

/// The signature with which a function of the unit is declared.
pub fn function_signature(name: FuncName) -> (signature: Signature)
    ensures
        signature == name_signature(name),
{
    match name {
        FuncName::Main => Signature { gives: Some(Kind::Byte), takes: Takes::Nothing },
        FuncName::Proc(_) => Signature { gives: None, takes: Takes::One(Kind::Cell) },
    }
}

/// The signature with which a function of the runtime is declared.
pub fn runtime_signature(callee: Callee) -> (signature: Signature)
    requires
        callee !is Function,
    ensures
        forall|names: Seq<FuncName>| signature == #[trigger] callee_signature(callee, names),
{
    match callee {
        Callee::Putchar => Signature { gives: Some(Kind::Byte), takes: Takes::One(Kind::Wide) },
        Callee::Getchar => Signature { gives: Some(Kind::Byte), takes: Takes::Nothing },
        _ => Signature { gives: Some(Kind::Cell), takes: Takes::Two(Kind::Word, Kind::Word) },
    }
}

/// How many bits the integers of a kind have; 0 for a pointer.
pub fn kind_bits(kind: Kind) -> (bits: u32)
    ensures
        bits == integer_bits(kind),
{
    match kind {
        Kind::Slot => 0,
        Kind::Cell => 0,
        Kind::Bit => 1,
        Kind::Byte => 8,
        Kind::Wide => 32,
        Kind::Word => 64,
    }
}

/// The kind and the bits of a constant operand.
pub fn constant_of(operand: Operand) -> (found: Option<(Kind, u64)>)
    ensures
        found == constant(operand),
{
    match operand {
        Operand::Byte(b) => Some((Kind::Byte, b as u64)),
        Operand::Word(w) => Some((Kind::Word, w)),
        _ => None,
    }
}

/// What an answer of the builder to a request that makes no value comes to: done,
/// or refused.
pub fn answer(built: Result<(), BuilderError>) -> (done: Result<(), Fault>)
    ensures
        done == match built {
            Ok(()) => Ok::<(), Fault>(()),
            Err(_) => Err::<(), Fault>(Fault::Refused),
        },
{
    match built {
        Ok(()) => Ok(()),
        Err(_) => Err(Fault::Refused),
    }
}

/// An integer kind for which the module has a type.
spec fn has_width(kind: Kind) -> bool {
    kind == Kind::Byte || kind == Kind::Wide || kind == Kind::Word
}

/// A signature of which the backend can make a function type: its parameters are
/// integers if it returns a value, and it takes one tape position if it returns
/// nothing.
spec fn buildable(signature: Signature) -> bool {
    match signature.gives {
        Some(kind) => (has_width(kind) || kind == Kind::Cell) && match signature.takes {
            Takes::Nothing => true,
            Takes::One(a) => has_width(a),
            Takes::Two(a, b) => has_width(a) && has_width(b),
        },
        None => signature.takes == Takes::One(Kind::Cell),
    }
}

impl<'a> Types<'a> {
    /// The type of the integers of a kind, if the module has one.
    fn width(&self, kind: Kind) -> (found: Option<IntType<'a>>)
        ensures
            found == match kind {
                Kind::Byte => Some(self.byte),
                Kind::Wide => Some(self.wide),
                Kind::Word => Some(self.word),
                _ => None,
            },
    {
        match kind {
            Kind::Byte => Some(self.byte),
            Kind::Wide => Some(self.wide),
            Kind::Word => Some(self.word),
            _ => None,
        }
    }

    /// The type of the functions with a signature, if the backend can make it.
    fn function(&self, signature: Signature) -> (found: Option<FunctionType<'a>>)
        ensures
            found is Some <==> buildable(signature),
    {
        let mut params: Vec<IntType<'a>> = Vec::new();
        match signature.gives {
            Some(kind) => {
                match signature.takes {
                    Takes::Nothing => {},
                    Takes::One(a) => {
                        match self.width(a) {
                            Some(ty) => params.push(ty),
                            None => {
                                return None;
                            },
                        }
                    },
                    Takes::Two(a, b) => {
                        match (self.width(a), self.width(b)) {
                            (Some(first), Some(second)) => {
                                params.push(first);
                                params.push(second);
                            },
                            _ => {
                                return None;
                            },
                        }
                    },
                }
                match kind {
                    Kind::Cell => Some(pointer_fn_type(self.cell_ptr, &params, false)),
                    _ => match self.width(kind) {
                        Some(ty) => Some(int_fn_type(ty, &params, false)),
                        None => None,
                    },
                }
            },
            None => {
                match signature.takes {
                    Takes::One(Kind::Cell) => Some(void_fn_type(self.void, self.cell_ptr, false)),
                    _ => None,
                }
            },
        }
    }
}

/// Adds a function to the module, and records the request.
fn ask_add_function<'a>(
    asked: &mut Ghost<Seq<Request>>,
    module: &Module<'a>,
    types: &Types<'a>,
    name: &str,
    signature: Signature,
) -> (function: FunctionValue<'a>)
    requires
        buildable(signature),
    ensures
        final(asked)@ == old(asked)@.push(Request::AddFunction { name: name@, signature }),
{
    *asked = Ghost(asked@.push(Request::AddFunction { name: name@, signature }));
    add_function(module, name, types.function(signature).unwrap(), None)
}

/// `block` is the handle of the block `id`.
spec fn names_block<'a>(
    blocks: Seq<Vec<BasicBlock<'a>>>,
    id: BlockId,
    block: BasicBlock<'a>,
) -> bool {
    id.func < blocks.len() && id.index < blocks[id.func as int]@.len()
        && blocks[id.func as int]@[id.index as int] == block
}

/// `function` is the handle of function number `func` of the unit.
spec fn names_function<'a>(
    funcs: Seq<FunctionValue<'a>>,
    func: usize,
    function: FunctionValue<'a>,
) -> bool {
    func < funcs.len() && funcs[func as int] == function
}

/// `function` is the handle of `callee`.
spec fn names_callee<'a>(
    runtime: Runtime<'a>,
    funcs: Seq<FunctionValue<'a>>,
    callee: Callee,
    function: FunctionValue<'a>,
) -> bool {
    match callee {
        Callee::Putchar => function == runtime.putchar,
        Callee::Getchar => function == runtime.getchar,
        Callee::Calloc => function == runtime.calloc,
        Callee::Function(f) => names_function(funcs, f, function),
    }
}

/// `value` is the value that `operand` names: the address of a storage cell, or
/// a value that was made, counted back from the latest. For a constant it is an
/// integer, which the bindings make of what `constant_of` gives.
spec fn names_value<'a>(
    slots: Seq<PointerValue<'a>>,
    values: Seq<Value<'a>>,
    operand: Operand,
    value: Value<'a>,
) -> bool {
    match operand {
        Operand::Slot(f) => f < slots.len() && value == Value::Pointer(slots[f as int]),
        Operand::Recent(k) => k < values.len() && value == values[values.len() - 1 - k],
        Operand::Byte(_) => value is Integer,
        Operand::Word(_) => value is Integer,
    }
}

/// `pointer` is the pointer that `operand` names.
spec fn names_pointer<'a>(
    slots: Seq<PointerValue<'a>>,
    values: Seq<Value<'a>>,
    operand: Operand,
    pointer: PointerValue<'a>,
) -> bool {
    names_value(slots, values, operand, Value::Pointer(pointer))
}

/// `integer` is the integer that `operand` names.
spec fn names_integer<'a>(
    slots: Seq<PointerValue<'a>>,
    values: Seq<Value<'a>>,
    operand: Operand,
    integer: IntValue<'a>,
) -> bool {
    names_value(slots, values, operand, Value::Integer(integer))
}

/// `first` and `second` are the values that the arguments name.
spec fn names_args<'a>(
    slots: Seq<PointerValue<'a>>,
    values: Seq<Value<'a>>,
    args: Args,
    first: Option<Value<'a>>,
    second: Option<Value<'a>>,
) -> bool {
    match args {
        Args::Nothing => first is None && second is None,
        Args::One(a) => first is Some && names_value(slots, values, a, first.unwrap())
            && second is None,
        Args::Two(a, b) => first is Some && names_value(slots, values, a, first.unwrap())
            && second is Some && names_value(slots, values, b, second.unwrap()),
    }
}

/// Appends a block to a function, and records the request.
fn ask_append<'a>(
    asked: &mut Ghost<Seq<Request>>,
    ctx: &'a Context,
    funcs: &Vec<FunctionValue<'a>>,
    func: usize,
    function: FunctionValue<'a>,
    name: &str,
) -> (block: BasicBlock<'a>)
    requires
        names_function(funcs@, func, function),
    ensures
        final(asked)@ == old(asked)@.push(Request::AppendBasicBlock { func, name: name@ }),
{
    *asked = Ghost(asked@.push(Request::AppendBasicBlock { func, name: name@ }));
    append_basic_block(ctx, function, name)
}

/// Puts the builder at the end of a block, and records the request.
fn ask_position<'a>(
    asked: &mut Ghost<Seq<Request>>,
    builder: &Builder<'a>,
    blocks: &Vec<Vec<BasicBlock<'a>>>,
    at: BlockId,
    block: BasicBlock<'a>,
)
    requires
        names_block(blocks@, at, block),
    ensures
        final(asked)@ == old(asked)@.push(Request::PositionAtEnd { at }),
{
    *asked = Ghost(asked@.push(Request::PositionAtEnd { at }));
    position_at_end(builder, block)
}

/// Asks the builder for a storage cell, and records the request.
fn ask_alloca<'a>(
    asked: &mut Ghost<Seq<Request>>,
    builder: &Builder<'a>,
    types: &Types<'a>,
) -> (built: Result<PointerValue<'a>, BuilderError>)
    ensures
        final(asked)@ == old(asked)@.push(Request::BuildAlloca { holds: Kind::Cell }),
{
    *asked = Ghost(asked@.push(Request::BuildAlloca { holds: Kind::Cell }));
    build_alloca(builder, types.cell_ptr, "ptr")
}

/// Asks for the first parameter of a function, and records the request.
fn ask_param<'a>(
    asked: &mut Ghost<Seq<Request>>,
    funcs: &Vec<FunctionValue<'a>>,
    func: usize,
    function: FunctionValue<'a>,
) -> (found: Option<BasicValueEnum<'a>>)
    requires
        names_function(funcs@, func, function),
    ensures
        final(asked)@ == old(asked)@.push(Request::FirstParam { func }),
{
    *asked = Ghost(asked@.push(Request::FirstParam { func }));
    first_param(function)
}

/// Asks the builder for a load, and records the request.
fn ask_load<'a>(
    asked: &mut Ghost<Seq<Request>>,
    builder: &Builder<'a>,
    slots: &Vec<PointerValue<'a>>,
    values: &Vec<Value<'a>>,
    from: Operand,
    pointer: PointerValue<'a>,
) -> (built: Result<BasicValueEnum<'a>, BuilderError>)
    requires
        names_pointer(slots@, values@, from, pointer),
    ensures
        final(asked)@ == old(asked)@.push(Request::BuildLoad { from }),
{
    *asked = Ghost(asked@.push(Request::BuildLoad { from }));
    build_load(builder, pointer, "load")
}

/// Asks the builder for a store, and records the request.
fn ask_store<'a>(
    asked: &mut Ghost<Seq<Request>>,
    builder: &Builder<'a>,
    slots: &Vec<PointerValue<'a>>,
    values: &Vec<Value<'a>>,
    to: Operand,
    pointer: PointerValue<'a>,
    value: Operand,
    stored: Value<'a>,
) -> (built: Result<(), BuilderError>)
    requires
        names_pointer(slots@, values@, to, pointer),
        names_value(slots@, values@, value, stored),
    ensures
        final(asked)@ == old(asked)@.push(Request::BuildStore { through: to, value }),
{
    *asked = Ghost(asked@.push(Request::BuildStore { through: to, value }));
    let stored = match stored {
        Value::Pointer(p) => value_of_pointer(p),
        Value::Integer(i) => value_of_int(i),
    };
    build_store(builder, pointer, stored)
}

/// Asks the builder for the integer of a pointer, and records the request.
fn ask_ptr_to_int<'a>(
    asked: &mut Ghost<Seq<Request>>,
    builder: &Builder<'a>,
    types: &Types<'a>,
    slots: &Vec<PointerValue<'a>>,
    values: &Vec<Value<'a>>,
    value: Operand,
    pointer: PointerValue<'a>,
) -> (built: Result<IntValue<'a>, BuilderError>)
    requires
        names_pointer(slots@, values@, value, pointer),
    ensures
        final(asked)@ == old(asked)@.push(Request::BuildPtrToInt { value, kind: Kind::Word }),
{
    *asked = Ghost(asked@.push(Request::BuildPtrToInt { value, kind: Kind::Word }));
    build_ptr_to_int(builder, pointer, types.width(Kind::Word).unwrap(), "addr")
}

/// Asks the builder for the pointer of an integer, and records the request.
fn ask_int_to_ptr<'a>(
    asked: &mut Ghost<Seq<Request>>,
    builder: &Builder<'a>,
    types: &Types<'a>,
    slots: &Vec<PointerValue<'a>>,
    values: &Vec<Value<'a>>,
    value: Operand,
    integer: IntValue<'a>,
) -> (built: Result<PointerValue<'a>, BuilderError>)
    requires
        names_integer(slots@, values@, value, integer),
    ensures
        final(asked)@ == old(asked)@.push(Request::BuildIntToPtr { value, kind: Kind::Cell }),
{
    *asked = Ghost(asked@.push(Request::BuildIntToPtr { value, kind: Kind::Cell }));
    build_int_to_ptr(builder, integer, types.cell_ptr, "moved")
}

/// Asks the builder for a sum, and records the request.
fn ask_add<'a>(
    asked: &mut Ghost<Seq<Request>>,
    builder: &Builder<'a>,
    slots: &Vec<PointerValue<'a>>,
    values: &Vec<Value<'a>>,
    lhs: Operand,
    left: IntValue<'a>,
    rhs: Operand,
    right: IntValue<'a>,
) -> (built: Result<IntValue<'a>, BuilderError>)
    requires
        names_integer(slots@, values@, lhs, left),
        names_integer(slots@, values@, rhs, right),
    ensures
        final(asked)@ == old(asked)@.push(Request::BuildIntAdd { lhs, rhs }),
{
    *asked = Ghost(asked@.push(Request::BuildIntAdd { lhs, rhs }));
    build_int_add(builder, left, right, "add")
}

/// Asks the builder for a difference, and records the request.
fn ask_sub<'a>(
    asked: &mut Ghost<Seq<Request>>,
    builder: &Builder<'a>,
    slots: &Vec<PointerValue<'a>>,
    values: &Vec<Value<'a>>,
    lhs: Operand,
    left: IntValue<'a>,
    rhs: Operand,
    right: IntValue<'a>,
) -> (built: Result<IntValue<'a>, BuilderError>)
    requires
        names_integer(slots@, values@, lhs, left),
        names_integer(slots@, values@, rhs, right),
    ensures
        final(asked)@ == old(asked)@.push(Request::BuildIntSub { lhs, rhs }),
{
    *asked = Ghost(asked@.push(Request::BuildIntSub { lhs, rhs }));
    build_int_sub(builder, left, right, "sub")
}

/// Asks the builder for an extension with zeros, and records the request.
fn ask_zero_extend<'a>(
    asked: &mut Ghost<Seq<Request>>,
    builder: &Builder<'a>,
    types: &Types<'a>,
    slots: &Vec<PointerValue<'a>>,
    values: &Vec<Value<'a>>,
    value: Operand,
    integer: IntValue<'a>,
) -> (built: Result<IntValue<'a>, BuilderError>)
    requires
        names_integer(slots@, values@, value, integer),
    ensures
        final(asked)@ == old(asked)@.push(Request::BuildIntZExtend { value, kind: Kind::Wide }),
{
    *asked = Ghost(asked@.push(Request::BuildIntZExtend { value, kind: Kind::Wide }));
    build_int_z_extend(builder, integer, types.width(Kind::Wide).unwrap(), "wide")
}

/// Asks the builder for a comparison for "not equal", and records the request.
fn ask_compare<'a>(
    asked: &mut Ghost<Seq<Request>>,
    builder: &Builder<'a>,
    slots: &Vec<PointerValue<'a>>,
    values: &Vec<Value<'a>>,
    lhs: Operand,
    left: IntValue<'a>,
    rhs: Operand,
    right: IntValue<'a>,
) -> (built: Result<IntValue<'a>, BuilderError>)
    requires
        names_integer(slots@, values@, lhs, left),
        names_integer(slots@, values@, rhs, right),
    ensures
        final(asked)@ == old(asked)@.push(Request::BuildIntCompareNe { lhs, rhs }),
{
    *asked = Ghost(asked@.push(Request::BuildIntCompareNe { lhs, rhs }));
    build_int_compare(builder, not_equal(), left, right, "ne")
}

/// Asks the builder for a branch, and records the request.
fn ask_branch<'a>(
    asked: &mut Ghost<Seq<Request>>,
    builder: &Builder<'a>,
    blocks: &Vec<Vec<BasicBlock<'a>>>,
    to: BlockId,
    block: BasicBlock<'a>,
) -> (built: Result<(), BuilderError>)
    requires
        names_block(blocks@, to, block),
    ensures
        final(asked)@ == old(asked)@.push(Request::BuildUnconditionalBranch { target: to }),
{
    *asked = Ghost(asked@.push(Request::BuildUnconditionalBranch { target: to }));
    build_unconditional_branch(builder, block)
}

/// Asks the builder for a branch on a bit, and records the request.
fn ask_branch_on<'a>(
    asked: &mut Ghost<Seq<Request>>,
    builder: &Builder<'a>,
    blocks: &Vec<Vec<BasicBlock<'a>>>,
    slots: &Vec<PointerValue<'a>>,
    values: &Vec<Value<'a>>,
    on: Operand,
    bit: IntValue<'a>,
    then: BlockId,
    then_block: BasicBlock<'a>,
    otherwise: BlockId,
    else_block: BasicBlock<'a>,
) -> (built: Result<(), BuilderError>)
    requires
        names_integer(slots@, values@, on, bit),
        names_block(blocks@, then, then_block),
        names_block(blocks@, otherwise, else_block),
    ensures
        final(asked)@ == old(asked)@.push(
            Request::BuildConditionalBranch { on, then, otherwise },
        ),
{
    *asked = Ghost(asked@.push(Request::BuildConditionalBranch { on, then, otherwise }));
    build_conditional_branch(builder, bit, then_block, else_block)
}

/// Asks the builder for a return, and records the request.
fn ask_return<'a>(
    asked: &mut Ghost<Seq<Request>>,
    builder: &Builder<'a>,
    slots: &Vec<PointerValue<'a>>,
    values: &Vec<Value<'a>>,
    value: Option<Operand>,
    integer: Option<IntValue<'a>>,
) -> (built: Result<(), BuilderError>)
    requires
        match value {
            Some(operand) => integer is Some && names_integer(
                slots@,
                values@,
                operand,
                integer.unwrap(),
            ),
            None => integer is None,
        },
    ensures
        final(asked)@ == old(asked)@.push(Request::BuildReturn { returned: value }),
{
    *asked = Ghost(asked@.push(Request::BuildReturn { returned: value }));
    build_return(builder, integer)
}

/// Asks the builder for a call, and records the request.
fn ask_call<'a>(
    asked: &mut Ghost<Seq<Request>>,
    builder: &Builder<'a>,
    runtime: &Runtime<'a>,
    funcs: &Vec<FunctionValue<'a>>,
    slots: &Vec<PointerValue<'a>>,
    values: &Vec<Value<'a>>,
    callee: Callee,
    function: FunctionValue<'a>,
    args: Args,
    first: Option<Value<'a>>,
    second: Option<Value<'a>>,
) -> (built: Result<Option<BasicValueEnum<'a>>, BuilderError>)
    requires
        names_callee(*runtime, funcs@, callee, function),
        names_args(slots@, values@, args, first, second),
    ensures
        final(asked)@ == old(asked)@.push(Request::BuildCall { callee, args }),
{
    *asked = Ghost(asked@.push(Request::BuildCall { callee, args }));
    let mut handed: Vec<BasicValueEnum<'a>> = Vec::new();
    match first {
        Some(Value::Pointer(p)) => handed.push(value_of_pointer(p)),
        Some(Value::Integer(i)) => handed.push(value_of_int(i)),
        None => {},
    }
    match second {
        Some(Value::Pointer(p)) => handed.push(value_of_pointer(p)),
        Some(Value::Integer(i)) => handed.push(value_of_int(i)),
        None => {},
    }
    match build_call(builder, function, &handed, "call") {
        Ok(site) => Ok(call_result(site)),
        Err(error) => Err(error),
    }
}

impl<'a> Backend<'a> {
    /// What the backend holds.
    pub closed spec fn tables(&self) -> Tables {
        Tables {
            names: self.names@,
            blocks: Seq::new(self.blocks@.len(), |i: int| self.blocks@[i]@.len()),
            slots: self.slots@.len(),
            values: self.kinds@,
        }
    }

    /// Each declared function has its name and its list of blocks, and each value
    /// is of the kind under which it is filed.
    pub closed spec fn wf(&self) -> bool {
        &&& self.blocks@.len() == self.funcs@.len()
        &&& self.names@.len() == self.funcs@.len()
        &&& self.kinds@.len() == self.values@.len()
        &&& forall|i: int|
            0 <= i < self.values@.len() ==> (is_pointer(#[trigger] self.kinds@[i])
                <==> self.values@[i] is Pointer)
    }

    /// The module that the backend builds.
    pub closed spec fn held_module(&self) -> Module<'a> {
        self.module
    }

    /// The requests that the backend has made to the bindings, in order. The
    /// functions that make a request record it, one each.
    pub closed spec fn requests(&self) -> Seq<Request> {
        self.asked@
    }

    /// A module named `main` in `ctx`, with the declarations of `putchar`,
    /// `getchar` and `calloc` under the names and with the signatures that
    /// `runtime_name` and `runtime_signature` give.
    pub fn new(ctx: &'a Context) -> (backend: Backend<'a>)
        ensures
            backend.wf(),
            backend.tables() == empty_tables(),
            backend.requests() == runtime_requests(),
    {
        let builder = create_builder(ctx);
        let module = create_module(ctx, "main");
        let byte = int_type(ctx, kind_bits(Kind::Byte));
        let types = Types {
            byte,
            wide: int_type(ctx, kind_bits(Kind::Wide)),
            word: int_type(ctx, kind_bits(Kind::Word)),
            cell_ptr: pointer_type(byte, default_address_space()),
            void: void_type(ctx),
        };
        let mut asked: Ghost<Seq<Request>> = Ghost(Seq::empty());
        proof {
            let names = Seq::<FuncName>::empty();
            assert(buildable(callee_signature(Callee::Putchar, names)));
            assert(buildable(callee_signature(Callee::Getchar, names)));
            assert(buildable(callee_signature(Callee::Calloc, names)));
        }
        let putchar = ask_add_function(
            &mut asked,
            &module,
            &types,
            runtime_name(Callee::Putchar),
            runtime_signature(Callee::Putchar),
        );
        let getchar = ask_add_function(
            &mut asked,
            &module,
            &types,
            runtime_name(Callee::Getchar),
            runtime_signature(Callee::Getchar),
        );
        let calloc = ask_add_function(
            &mut asked,
            &module,
            &types,
            runtime_name(Callee::Calloc),
            runtime_signature(Callee::Calloc),
        );
        let backend = Backend {
            ctx,
            builder,
            module,
            types,
            runtime: Runtime { putchar, getchar, calloc },
            funcs: Vec::new(),
            names: Vec::new(),
            blocks: Vec::new(),
            slots: Vec::new(),
            values: Vec::new(),
            kinds: Vec::new(),
            asked,
        };
        assert(backend.requests() =~= runtime_requests());
        assert(backend.tables() =~= empty_tables());
        backend
    }

    /// The module, as far as it is built.
    pub fn module(&self) -> (module: &Module<'a>)
        ensures
            *module == self.held_module(),
    {
        &self.module
    }

    /// Gives the module up.
    pub fn into_module(self) -> (module: Module<'a>)
        ensures
            module == self.held_module(),
    {
        self.module
    }

    fn operand_fits(&self, operand: Operand) -> (fits: bool)
        ensures
            fits == operand_fits(operand, self.tables()),
    {
        match operand {
            Operand::Slot(f) => f < self.slots.len(),
            Operand::Recent(k) => k < self.kinds.len(),
            Operand::Byte(_) => true,
            Operand::Word(_) => true,
        }
    }

    fn block_fits(&self, id: BlockId) -> (fits: bool)
        ensures
            fits == block_fits(id, self.tables()),
    {
        id.func < self.blocks.len() && id.index < self.blocks[id.func].len()
    }

    /// Whether everything that `action` names has been made.
    pub fn fits(&self, action: Action) -> (fits: bool)
        ensures
            fits == action_fits(action, self.tables()),
    {
        match action {
            Action::Declare { .. } => true,
            Action::AppendBlock { func, .. } => func < self.blocks.len(),
            Action::Position { at } => self.block_fits(at),
            Action::Alloca => true,
            Action::Param { func } => func < self.blocks.len(),
            Action::Load { from } => self.operand_fits(from),
            Action::Store { to, value } => self.operand_fits(to) && self.operand_fits(value),
            Action::PtrToInt { value } => self.operand_fits(value),
            Action::IntToPtr { value } => self.operand_fits(value),
            Action::Add { lhs, rhs } => self.operand_fits(lhs) && self.operand_fits(rhs),
            Action::Sub { lhs, rhs } => self.operand_fits(lhs) && self.operand_fits(rhs),
            Action::ZeroExtend { value } => self.operand_fits(value),
            Action::CompareNe { lhs, rhs } => self.operand_fits(lhs) && self.operand_fits(rhs),
            Action::Call { callee, args, .. } => {
                let callee_ok = match callee {
                    Callee::Function(f) => f < self.blocks.len(),
                    _ => true,
                };
                let args_ok = match args {
                    Args::Nothing => true,
                    Args::One(a) => self.operand_fits(a),
                    Args::Two(a, b) => self.operand_fits(a) && self.operand_fits(b),
                };
                callee_ok && args_ok
            },
            Action::Jump { target } => self.block_fits(target),
            Action::Branch { on, then, otherwise } => self.operand_fits(on) && self.block_fits(then)
                && self.block_fits(otherwise),
            Action::ReturnVoid => true,
            Action::Return { value } => self.operand_fits(value),
        }
    }

    /// The kind of the value that `operand` names.
    fn kind(&self, operand: Operand) -> (kind: Kind)
        requires
            operand_fits(operand, self.tables()),
        ensures
            kind == operand_kind(operand, self.tables()),
    {
        match operand {
            Operand::Slot(_) => Kind::Slot,
            Operand::Recent(k) => self.kinds[self.kinds.len() - 1 - k],
            Operand::Byte(_) => Kind::Byte,
            Operand::Word(_) => Kind::Word,
        }
    }

    /// The signature of `callee`.
    fn signature(&self, callee: Callee) -> (signature: Signature)
        requires
            self.wf(),
            callee matches Callee::Function(f) ==> f < self.tables().blocks.len(),
        ensures
            signature == callee_signature(callee, self.tables().names),
    {
        match callee {
            Callee::Function(f) => function_signature(self.names[f]),
            _ => runtime_signature(callee),
        }
    }

    fn args_match(&self, args: Args, takes: Takes) -> (matches: bool)
        requires
            match args {
                Args::Nothing => true,
                Args::One(a) => operand_fits(a, self.tables()),
                Args::Two(a, b) => operand_fits(a, self.tables()) && operand_fits(b, self.tables()),
            },
        ensures
            matches == args_match(args, takes, self.tables()),
    {
        match (args, takes) {
            (Args::Nothing, Takes::Nothing) => true,
            (Args::One(a), Takes::One(k)) => self.kind(a) == k,
            (Args::Two(a, b), Takes::Two(k, l)) => self.kind(a) == k && self.kind(b) == l,
            _ => false,
        }
    }

    /// Whether `action` asks for values of the kinds that its request takes.
    pub fn kinded(&self, action: Action) -> (kinded: bool)
        requires
            self.wf(),
            action_fits(action, self.tables()),
        ensures
            kinded == action_kinded(action, self.tables()),
    {
        match action {
            Action::Param { func } => match self.names[func] {
                FuncName::Main => false,
                FuncName::Proc(_) => true,
            },
            Action::Load { from } => {
                let kind = self.kind(from);
                kind == Kind::Slot || kind == Kind::Cell
            },
            Action::Store { to, value } => {
                let to = self.kind(to);
                let value = self.kind(value);
                (to == Kind::Slot && value == Kind::Cell) || (to == Kind::Cell && value
                    == Kind::Byte)
            },
            Action::PtrToInt { value } => self.kind(value) == Kind::Cell,
            Action::IntToPtr { value } => self.kind(value) == Kind::Word,
            Action::Add { lhs, rhs } => {
                let kind = self.kind(lhs);
                kind != Kind::Slot && kind != Kind::Cell && kind == self.kind(rhs)
            },
            Action::Sub { lhs, rhs } => {
                let kind = self.kind(lhs);
                kind != Kind::Slot && kind != Kind::Cell && kind == self.kind(rhs)
            },
            Action::ZeroExtend { value } => {
                let kind = self.kind(value);
                kind == Kind::Byte || kind == Kind::Bit
            },
            Action::CompareNe { lhs, rhs } => {
                let kind = self.kind(lhs);
                kind != Kind::Slot && kind != Kind::Cell && kind == self.kind(rhs)
            },
            Action::Call { callee, args, result } => {
                let signature = self.signature(callee);
                let gives = match signature.gives {
                    Some(_) => true,
                    None => false,
                };
                result == gives && self.args_match(args, signature.takes)
            },
            Action::Branch { on, .. } => self.kind(on) == Kind::Bit,
            Action::Return { value } => self.kind(value) == Kind::Byte,
            _ => true,
        }
    }

    /// The value that `operand` names: the address of a storage cell, a value that
    /// an action has made, counted back from the latest, or the constant that
    /// `constant_of` gives, which is an integer.
    fn value(&self, operand: Operand) -> (value: Value<'a>)
        requires
            self.wf(),
            operand_fits(operand, self.tables()),
        ensures
            match operand {
                Operand::Slot(f) => value == Value::Pointer(self.slots@[f as int]),
                Operand::Recent(k) => value == self.values@[self.values@.len() - 1 - k],
                Operand::Byte(_) => value is Integer,
                Operand::Word(_) => value is Integer,
            },
            is_pointer(operand_kind(operand, self.tables())) <==> value is Pointer,
    {
        match operand {
            Operand::Slot(f) => Value::Pointer(self.slots[f]),
            Operand::Recent(k) => self.values[self.values.len() - 1 - k],
            _ => {
                let (kind, bits) = constant_of(operand).unwrap();
                Value::Integer(const_int(self.types.width(kind).unwrap(), bits, false))
            },
        }
    }

    /// The pointer that `operand` names, if it names one: a storage cell does, a
    /// constant does not, and a value that was made does if it is a pointer.
    fn pointer(&self, operand: Operand) -> (pointer: Option<PointerValue<'a>>)
        requires
            self.wf(),
            operand_fits(operand, self.tables()),
        ensures
            pointer == match operand {
                Operand::Slot(f) => Some(self.slots@[f as int]),
                Operand::Recent(k) => match self.values@[self.values@.len() - 1 - k] {
                    Value::Pointer(p) => Some(p),
                    Value::Integer(_) => None,
                },
                Operand::Byte(_) => None,
                Operand::Word(_) => None,
            },
            pointer is Some <==> is_pointer(operand_kind(operand, self.tables())),
    {
        match self.value(operand) {
            Value::Pointer(p) => Some(p),
            Value::Integer(_) => None,
        }
    }

    /// The integer that `operand` names, if it names one: a constant does, a
    /// storage cell does not, and a value that was made does if it is an integer.
    fn integer(&self, operand: Operand) -> (found: Option<IntValue<'a>>)
        requires
            self.wf(),
            operand_fits(operand, self.tables()),
        ensures
            match operand {
                Operand::Slot(_) => found is None,
                Operand::Recent(k) => found == match self.values@[self.values@.len() - 1 - k] {
                    Value::Pointer(_) => None,
                    Value::Integer(i) => Some(i),
                },
                Operand::Byte(_) => found is Some,
                Operand::Word(_) => found is Some,
            },
            found is Some <==> !is_pointer(operand_kind(operand, self.tables())),
    {
        match self.value(operand) {
            Value::Pointer(_) => None,
            Value::Integer(i) => Some(i),
        }
    }

    /// The handle of the block `id`.
    fn block(&self, id: BlockId) -> (block: BasicBlock<'a>)
        requires
            block_fits(id, self.tables()),
        ensures
            block == self.blocks@[id.func as int]@[id.index as int],
    {
        self.blocks[id.func][id.index]
    }

    /// Files `value` as the latest value, under its kind.
    fn made(&mut self, value: Value<'a>, kind: Kind)
        requires
            old(self).wf(),
            is_pointer(kind) <==> value is Pointer,
        ensures
            final(self).wf(),
            final(self).requests() == old(self).requests(),
            final(self).values@ == old(self).values@.push(value),
            final(self).tables() == (Tables {
                values: old(self).tables().values.push(kind),
                ..old(self).tables()
            }),
    {
        self.values.push(value);
        self.kinds.push(kind);
        assert(self.tables() =~= (Tables {
            values: old(self).tables().values.push(kind),
            ..old(self).tables()
        }));
    }

    /// Files what the backend gave as the latest value, under the kind that the
    /// request makes. What is no pointer where the kind is one, or no integer where
    /// the kind is one, is refused.
    fn keep(&mut self, raw: BasicValueEnum<'a>, kind: Kind) -> (done: Result<(), Fault>)
        requires
            old(self).wf(),
        ensures
            final(self).wf(),
            final(self).requests() == old(self).requests(),
            match done {
                Ok(()) => final(self).tables() == (Tables {
                    values: old(self).tables().values.push(kind),
                    ..old(self).tables()
                }),
                Err(fault) => fault == Fault::Refused
                    && final(self).tables() == old(self).tables(),
            },
    {
        match kind {
            Kind::Slot | Kind::Cell => match pointer_of(raw) {
                Some(p) => {
                    self.made(Value::Pointer(p), kind);
                    Ok(())
                },
                None => Err(Fault::Refused),
            },
            _ => match int_of(raw) {
                Some(i) => {
                    self.made(Value::Integer(i), kind);
                    Ok(())
                },
                None => Err(Fault::Refused),
            },
        }
    }

    /// Files the integer that the builder made as the latest value, if it made
    /// one.
    fn made_integer(
        &mut self,
        built: Result<IntValue<'a>, BuilderError>,
        kind: Kind,
    ) -> (done: Result<(), Fault>)
        requires
            old(self).wf(),
            !is_pointer(kind),
        ensures
            final(self).wf(),
            final(self).requests() == old(self).requests(),
            match built {
                Ok(made) => done is Ok && final(self).values@ == old(self).values@.push(
                    Value::Integer(made),
                ) && final(self).tables() == (Tables {
                    values: old(self).tables().values.push(kind),
                    ..old(self).tables()
                }),
                Err(_) => done == Err::<(), Fault>(Fault::Refused) && final(self).tables()
                    == old(self).tables(),
            },
    {
        match built {
            Ok(made) => {
                self.made(Value::Integer(made), kind);
                Ok(())
            },
            Err(_) => Err(Fault::Refused),
        }
    }

    /// Files the pointer that the builder made as the latest value, if it made
    /// one.
    fn made_pointer(
        &mut self,
        built: Result<PointerValue<'a>, BuilderError>,
        kind: Kind,
    ) -> (done: Result<(), Fault>)
        requires
            old(self).wf(),
            is_pointer(kind),
        ensures
            final(self).wf(),
            final(self).requests() == old(self).requests(),
            match built {
                Ok(made) => done is Ok && final(self).values@ == old(self).values@.push(
                    Value::Pointer(made),
                ) && final(self).tables() == (Tables {
                    values: old(self).tables().values.push(kind),
                    ..old(self).tables()
                }),
                Err(_) => done == Err::<(), Fault>(Fault::Refused) && final(self).tables()
                    == old(self).tables(),
            },
    {
        match built {
            Ok(made) => {
                self.made(Value::Pointer(made), kind);
                Ok(())
            },
            Err(_) => Err(Fault::Refused),
        }
    }

    /// Files the address that the builder allocated as the next storage cell, if
    /// it allocated one.
    fn made_slot(
        &mut self,
        built: Result<PointerValue<'a>, BuilderError>,
    ) -> (done: Result<(), Fault>)
        requires
            old(self).wf(),
        ensures
            final(self).wf(),
            final(self).requests() == old(self).requests(),
            match built {
                Ok(made) => done is Ok && final(self).slots@ == old(self).slots@.push(made)
                    && final(self).tables() == (Tables {
                    slots: old(self).tables().slots + 1,
                    ..old(self).tables()
                }),
                Err(_) => done == Err::<(), Fault>(Fault::Refused) && final(self).tables()
                    == old(self).tables(),
            },
    {
        match built {
            Ok(made) => {
                self.slots.push(made);
                assert(self.tables() =~= (Tables {
                    slots: old(self).tables().slots + 1,
                    ..old(self).tables()
                }));
                Ok(())
            },
            Err(_) => Err(Fault::Refused),
        }
    }

    /// Declares the next function of the unit, under the name and with the
    /// signature that `function_name` and `function_signature` give.
    fn declare(&mut self, name: FuncName)
        requires
            old(self).wf(),
        ensures
            final(self).wf(),
            final(self).tables() == tables_after_action(
                old(self).tables(),
                Action::Declare { name },
            ),
            final(self).requests() == old(self).requests().push(
                request_of(Action::Declare { name }),
            ),
    {
        let text = function_name(name);
        let function = ask_add_function(
            &mut self.asked,
            &self.module,
            &self.types,
            text.as_str(),
            function_signature(name),
        );
        self.funcs.push(function);
        self.names.push(name);
        self.blocks.push(Vec::new());
        assert(self.tables() =~= tables_after_action(
            old(self).tables(),
            Action::Declare { name },
        ));
    }

    /// Appends a block to function `func`, under the name that `label_name` gives.
    fn append(&mut self, func: usize, label: Label)
        requires
            old(self).wf(),
            func < old(self).tables().blocks.len(),
        ensures
            final(self).wf(),
            final(self).tables() == tables_after_action(
                old(self).tables(),
                Action::AppendBlock { func, label },
            ),
            final(self).requests() == old(self).requests().push(
                request_of(Action::AppendBlock { func, label }),
            ),
    {
        let block = ask_append(
            &mut self.asked,
            self.ctx,
            &self.funcs,
            func,
            self.funcs[func],
            label_name(label),
        );
        self.blocks[func].push(block);
        assert(self.tables() =~= tables_after_action(
            old(self).tables(),
            Action::AppendBlock { func, label },
        ));
    }

    /// Builds the call of `callee` with `args`, and files what it returns where
    /// `result` says that it returns a value.
    fn call(&mut self, callee: Callee, args: Args, result: bool) -> (done: Result<(), Fault>)
        requires
            old(self).wf(),
            action_ok(Action::Call { callee, args, result }, old(self).tables()),
        ensures
            final(self).wf(),
            final(self).requests() == old(self).requests().push(
                request_of(Action::Call { callee, args, result }),
            ),
            match done {
                Ok(()) => final(self).tables() == tables_after_action(
                    old(self).tables(),
                    Action::Call { callee, args, result },
                ),
                Err(fault) => fault == Fault::Refused
                    && final(self).tables() == old(self).tables(),
            },
    {
        let function = match callee {
            Callee::Putchar => self.runtime.putchar,
            Callee::Getchar => self.runtime.getchar,
            Callee::Calloc => self.runtime.calloc,
            Callee::Function(f) => self.funcs[f],
        };
        let gives = self.signature(callee).gives;
        let (first, second) = match args {
            Args::Nothing => (None, None),
            Args::One(a) => (Some(self.value(a)), None),
            Args::Two(a, b) => (Some(self.value(a)), Some(self.value(b))),
        };
        let built = ask_call(
            &mut self.asked,
            &self.builder,
            &self.runtime,
            &self.funcs,
            &self.slots,
            &self.values,
            callee,
            function,
            args,
            first,
            second,
        );
        match (built, gives) {
            (Ok(Some(raw)), Some(kind)) => self.keep(raw, kind),
            (Ok(None), None) => Ok(()),
            _ => Err(Fault::Refused),
        }
    }

    /// Builds what an action that makes a value asks for, and files the value.
    fn compute(&mut self, action: Action) -> (done: Result<(), Fault>)
        requires
            old(self).wf(),
            action_ok(action, old(self).tables()),
            action is Load || action is PtrToInt || action is IntToPtr || action is Add || action
                is Sub || action is ZeroExtend || action is CompareNe,
        ensures
            final(self).wf(),
            final(self).requests() == old(self).requests().push(request_of(action)),
            match done {
                Ok(()) => final(self).tables() == tables_after_action(old(self).tables(), action),
                Err(fault) => fault == Fault::Refused
                    && final(self).tables() == old(self).tables(),
            },
    {
        match action {
            Action::Load { from } => {
                let kind = match self.kind(from) {
                    Kind::Slot => Kind::Cell,
                    _ => Kind::Byte,
                };
                let pointer = self.pointer(from).unwrap();
                match ask_load(
                    &mut self.asked,
                    &self.builder,
                    &self.slots,
                    &self.values,
                    from,
                    pointer,
                ) {
                    Ok(raw) => self.keep(raw, kind),
                    Err(_) => Err(Fault::Refused),
                }
            },
            Action::PtrToInt { value } => {
                let pointer = self.pointer(value).unwrap();
                let built = ask_ptr_to_int(
                    &mut self.asked,
                    &self.builder,
                    &self.types,
                    &self.slots,
                    &self.values,
                    value,
                    pointer,
                );
                self.made_integer(built, Kind::Word)
            },
            Action::IntToPtr { value } => {
                let integer = self.integer(value).unwrap();
                let built = ask_int_to_ptr(
                    &mut self.asked,
                    &self.builder,
                    &self.types,
                    &self.slots,
                    &self.values,
                    value,
                    integer,
                );
                self.made_pointer(built, Kind::Cell)
            },
            Action::Add { lhs, rhs } => {
                let kind = self.kind(lhs);
                let left = self.integer(lhs).unwrap();
                let right = self.integer(rhs).unwrap();
                let built = ask_add(
                    &mut self.asked,
                    &self.builder,
                    &self.slots,
                    &self.values,
                    lhs,
                    left,
                    rhs,
                    right,
                );
                self.made_integer(built, kind)
            },
            Action::Sub { lhs, rhs } => {
                let kind = self.kind(lhs);
                let left = self.integer(lhs).unwrap();
                let right = self.integer(rhs).unwrap();
                let built = ask_sub(
                    &mut self.asked,
                    &self.builder,
                    &self.slots,
                    &self.values,
                    lhs,
                    left,
                    rhs,
                    right,
                );
                self.made_integer(built, kind)
            },
            Action::ZeroExtend { value } => {
                let integer = self.integer(value).unwrap();
                let built = ask_zero_extend(
                    &mut self.asked,
                    &self.builder,
                    &self.types,
                    &self.slots,
                    &self.values,
                    value,
                    integer,
                );
                self.made_integer(built, Kind::Wide)
            },
            Action::CompareNe { lhs, rhs } => {
                let left = self.integer(lhs).unwrap();
                let right = self.integer(rhs).unwrap();
                let built = ask_compare(
                    &mut self.asked,
                    &self.builder,
                    &self.slots,
                    &self.values,
                    lhs,
                    left,
                    rhs,
                    right,
                );
                self.made_integer(built, Kind::Bit)
            },
            _ => vstd::pervasive::unreached(),
        }
    }

    /// Carries out one action. It fails as `Unfit` exactly where the action names
    /// what has not been made, and as `Mismatch` exactly where it names only what
    /// has been made but asks for a value of another kind. Then the request goes to
    /// the backend, which cannot refuse to declare a function, to append a block or
    /// to go to the end of one. Where an error is returned the tables are as they
    /// were.
    pub fn perform(&mut self, action: Action) -> (done: Result<(), Fault>)
        requires
            old(self).wf(),
        ensures
            final(self).wf(),
            match done {
                Ok(()) => action_ok(action, old(self).tables()) && final(self).tables()
                    == tables_after_action(old(self).tables(), action) && final(self).requests()
                    == old(self).requests().push(request_of(action)),
                Err(Fault::Unfit) => !action_fits(action, old(self).tables())
                    && final(self).tables() == old(self).tables() && final(self).requests()
                    == old(self).requests(),
                Err(Fault::Mismatch) => action_fits(action, old(self).tables()) && !action_kinded(
                    action,
                    old(self).tables(),
                ) && final(self).tables() == old(self).tables() && final(self).requests()
                    == old(self).requests(),
                Err(Fault::Refused) => action_ok(action, old(self).tables()) && asks_backend(
                    action,
                ) && final(self).tables() == old(self).tables() && final(self).requests()
                    == old(self).requests().push(request_of(action)),
            },
            !asks_backend(action) ==> (done is Ok <==> action_fits(action, old(self).tables())),
    {
        if !self.fits(action) {
            return Err(Fault::Unfit);
        }
        if !self.kinded(action) {
            return Err(Fault::Mismatch);
        }
        match action {
            Action::Declare { name } => {
                self.declare(name);
                Ok(())
            },
            Action::AppendBlock { func, label } => {
                self.append(func, label);
                Ok(())
            },
            Action::Position { at } => {
                let block = self.block(at);
                ask_position(&mut self.asked, &self.builder, &self.blocks, at, block);
                Ok(())
            },
            Action::Alloca => {
                let built = ask_alloca(&mut self.asked, &self.builder, &self.types);
                self.made_slot(built)
            },
            Action::Param { func } => {
                match ask_param(&mut self.asked, &self.funcs, func, self.funcs[func]) {
                    Some(raw) => self.keep(raw, Kind::Cell),
                    None => Err(Fault::Refused),
                }
            },
            Action::Store { to, value } => {
                let pointer = self.pointer(to).unwrap();
                let stored = self.value(value);
                answer(
                    ask_store(
                        &mut self.asked,
                        &self.builder,
                        &self.slots,
                        &self.values,
                        to,
                        pointer,
                        value,
                        stored,
                    ),
                )
            },
            Action::Call { callee, args, result } => self.call(callee, args, result),
            Action::Jump { target } => {
                let block = self.block(target);
                answer(ask_branch(&mut self.asked, &self.builder, &self.blocks, target, block))
            },
            Action::Branch { on, then, otherwise } => {
                let bit = self.integer(on).unwrap();
                let then_block = self.block(then);
                let else_block = self.block(otherwise);
                answer(
                    ask_branch_on(
                        &mut self.asked,
                        &self.builder,
                        &self.blocks,
                        &self.slots,
                        &self.values,
                        on,
                        bit,
                        then,
                        then_block,
                        otherwise,
                        else_block,
                    ),
                )
            },
            Action::ReturnVoid => answer(
                ask_return(&mut self.asked, &self.builder, &self.slots, &self.values, None, None),
            ),
            Action::Return { value } => {
                let integer = self.integer(value).unwrap();
                answer(
                    ask_return(
                        &mut self.asked,
                        &self.builder,
                        &self.slots,
                        &self.values,
                        Some(value),
                        Some(integer),
                    ),
                )
            },
            _ => self.compute(action),
        }
    }
}

/// The requests that `actions` lead to, in order.
pub open spec fn requests_of(actions: Seq<Action>) -> Seq<Request> {
    Seq::new(actions.len(), |i: int| request_of(actions[i]))
}

/// Carries out `actions` in order on a fresh backend in `ctx`, up to the first one
/// that fails. Where all are carried out, the backend has made the requests of a
/// fresh backend and then those of the actions, one each and in order.
pub fn build<'a>(ctx: &'a Context, actions: &Vec<Action>) -> (made: Result<Backend<'a>, EmitError>)
    ensures
        match made {
            Ok(backend) => plan_fits(actions@) && backend.wf() && backend.tables() == tables_after(
                actions@,
            ) && backend.requests() == runtime_requests() + requests_of(actions@),
            Err(EmitError::Unfit { at }) => at < actions@.len() && plan_fits(
                actions@.take(at as int),
            ) && !action_fits(actions@[at as int], tables_after(actions@.take(at as int))),
            Err(EmitError::Mismatch { at }) => at < actions@.len() && plan_fits(
                actions@.take(at as int),
            ) && action_fits(actions@[at as int], tables_after(actions@.take(at as int)))
                && !action_kinded(actions@[at as int], tables_after(actions@.take(at as int))),
            Err(EmitError::Refused { at }) => at < actions@.len() && plan_fits(
                actions@.take(at + 1),
            ) && asks_backend(actions@[at as int]),
        },
{
    let mut backend = Backend::new(ctx);
    let mut i: usize = 0;
    proof {
        lemma_plan_fits_empty();
        assert(actions@.take(0) =~= Seq::<Action>::empty());
        assert(backend.requests() =~= runtime_requests() + requests_of(actions@.take(0)));
    }
    while i < actions.len()
        invariant
            i <= actions.len(),
            backend.wf(),
            backend.tables() == tables_after(actions@.take(i as int)),
            backend.requests() == runtime_requests() + requests_of(actions@.take(i as int)),
            plan_fits(actions@.take(i as int)),
        decreases actions.len() - i,
    {
        let ghost before = actions@.take(i as int);
        let ghost after = actions@.take(i + 1);
        proof {
            assert(after.drop_last() =~= before);
            assert(after.last() == actions@[i as int]);
            assert(requests_of(after) =~= requests_of(before).push(request_of(actions@[i as int])));
        }
        match backend.perform(actions[i]) {
            Ok(()) => {
                proof {
                    lemma_plan_fits_push(after);
                    assert(backend.requests() =~= runtime_requests() + requests_of(after));
                }
            },
            Err(Fault::Unfit) => {
                return Err(EmitError::Unfit { at: i });
            },
            Err(Fault::Mismatch) => {
                return Err(EmitError::Mismatch { at: i });
            },
            Err(Fault::Refused) => {
                proof {
                    lemma_plan_fits_push(after);
                }
                return Err(EmitError::Refused { at: i });
            },
        }
        i += 1;
    }
    proof {
        assert(actions@.take(i as int) =~= actions@);
    }
    Ok(backend)
}

/// Carries out `actions` in order on a fresh module in `ctx`, up to the first one
/// that fails. The module that it gives is the one that a backend holds which has
/// made the requests of a fresh backend and then those of the actions.
pub fn emit<'a>(ctx: &'a Context, actions: &Vec<Action>) -> (made: Result<Module<'a>, EmitError>)
    ensures
        match made {
            Ok(module) => plan_fits(actions@) && exists|b: Backend<'a>|
                b.wf() && #[trigger] b.held_module() == module && b.tables() == tables_after(
                    actions@,
                ) && b.requests() == runtime_requests() + requests_of(actions@),
            Err(EmitError::Unfit { at }) => at < actions@.len() && plan_fits(
                actions@.take(at as int),
            ) && !action_fits(actions@[at as int], tables_after(actions@.take(at as int))),
            Err(EmitError::Mismatch { at }) => at < actions@.len() && plan_fits(
                actions@.take(at as int),
            ) && action_fits(actions@[at as int], tables_after(actions@.take(at as int)))
                && !action_kinded(actions@[at as int], tables_after(actions@.take(at as int))),
            Err(EmitError::Refused { at }) => at < actions@.len() && plan_fits(
                actions@.take(at + 1),
            ) && asks_backend(actions@[at as int]),
        },
{
    match build(ctx, actions) {
        Ok(backend) => {
            let ghost built = backend;
            let module = backend.into_module();
            assert(built.held_module() == module);
            Ok(module)
        },
        Err(error) => Err(error),
    }
}

/// Builds `unit` as a module in `ctx`. Every action of a sound unit's plan names
/// what is there and asks for values of the right kinds, so that only the backend
/// can make this fail, and only at a request that it can refuse. The module that
/// it gives is the one that a backend holds which has made the requests of a fresh
/// backend and then those of the unit's plan.
pub fn lower<'a>(ctx: &'a Context, unit: &Unit) -> (made: Result<Module<'a>, EmitError>)
    requires
        unit_wf(unit@),
    ensures
        match made {
            Ok(module) => exists|b: Backend<'a>|
                b.wf() && #[trigger] b.held_module() == module && b.tables() == tables_after(
                    plan_of(unit@),
                ) && b.requests() == runtime_requests() + requests_of(plan_of(unit@)),
            Err(EmitError::Unfit { .. }) => false,
            Err(EmitError::Mismatch { .. }) => false,
            Err(EmitError::Refused { at }) => at < plan_of(unit@).len() && asks_backend(
                plan_of(unit@)[at as int],
            ),
        },
{
    let actions = plan(unit);
    let made = emit(ctx, &actions);
    proof {
        match made {
            Err(EmitError::Unfit { at }) => {
                lemma_plan_fits_at(actions@, at as int);
            },
            Err(EmitError::Mismatch { at }) => {
                lemma_plan_fits_at(actions@, at as int);
            },
            _ => {},
        }
    }
    made
}

} // verus!
