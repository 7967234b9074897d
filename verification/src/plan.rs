use crate::ir::{
    inst_ok, unit_wf, BlockId, BlockView, FuncName, FunctionView, Inst, Label, Unit, UnitView,
    TAPE_CELLS,
};
use vstd::prelude::*;

verus! {

/// The kind of a value in the module.
#[derive(Clone, Copy, Debug, PartialEq, Eq, Structural)]
pub enum Kind {
    /// The address of a storage cell: a pointer to a pointer to a byte.
    Slot,
    /// A tape position: a pointer to a byte.
    Cell,
    /// One bit.
    Bit,
    /// An integer of 8 bits.
    Byte,
    /// An integer of 32 bits.
    Wide,
    /// An integer of 64 bits.
    Word,
}

/// What a function takes.
#[derive(Clone, Copy, Debug, PartialEq, Eq, Structural)]
pub enum Takes {
    Nothing,
    One(Kind),
    Two(Kind, Kind),
}

/// What a function takes and what it returns; `None` where it returns nothing.
#[derive(Clone, Copy, Debug, PartialEq, Eq)]
pub struct Signature {
    pub gives: Option<Kind>,
    pub takes: Takes,
}

/// A value that an action reads.
#[derive(Clone, Copy, Debug, PartialEq, Eq, Structural)]
pub enum Operand {
    /// The address of the storage cell of function number `.0`.
    Slot(usize),
    /// The value that an earlier action made: `Recent(0)` is the latest value,
    /// `Recent(1)` the one before it.
    Recent(usize),
    /// A constant byte.
    Byte(u8),
    /// A constant of 64 bits.
    Word(u64),
}

/// A function that an action calls.
#[derive(Clone, Copy, Debug, PartialEq, Eq, Structural)]
pub enum Callee {
    /// `putchar`, which takes an integer of 32 bits and returns a byte.
    Putchar,
    /// `getchar`, which takes nothing and returns a byte.
    Getchar,
    /// `calloc`, which takes two integers of 64 bits and returns a pointer.
    Calloc,
    /// Function number `.0` of the unit.
    Function(usize),
}

/// The arguments of a call.
#[derive(Clone, Copy, Debug, PartialEq, Eq, Structural)]
pub enum Args {
    /// No argument.
    Nothing,
    /// One argument.
    One(Operand),
    /// Two arguments, in order.
    Two(Operand, Operand),
}

/// One request to the backend. The actions that make a value are `Param`, `Load`,
/// `PtrToInt`, `IntToPtr`, `Add`, `Sub`, `ZeroExtend`, `CompareNe`, and `Call`
/// where `result` is set.
#[derive(Clone, Copy, Debug, PartialEq, Eq, Structural)]
pub enum Action {
    /// Declare the next function of the unit.
    Declare { name: FuncName },
    /// Append a block to function `func`.
    AppendBlock { func: usize, label: Label },
    /// Go on at the end of block `at`.
    Position { at: BlockId },
    /// Allocate the storage cell of the next function, in the order of the
    /// functions.
    Alloca,
    /// Take the first parameter of function `func`.
    Param { func: usize },
    /// Load what the pointer `from` points to.
    Load { from: Operand },
    /// Store `value` where the pointer `to` points.
    Store { to: Operand, value: Operand },
    /// Take the pointer `value` as an integer of 64 bits.
    PtrToInt { value: Operand },
    /// Take the integer `value` as a pointer to a byte.
    IntToPtr { value: Operand },
    /// Add two integers of one width; the sum wraps.
    Add { lhs: Operand, rhs: Operand },
    /// Subtract `rhs` from `lhs`, two integers of one width; the difference wraps.
    Sub { lhs: Operand, rhs: Operand },
    /// Extend the byte `value` with zeros to 32 bits.
    ZeroExtend { value: Operand },
    /// Compare two integers of one width: one bit, set if they differ.
    CompareNe { lhs: Operand, rhs: Operand },
    /// Call `callee` with `args`. `result` says whether the call returns a value.
    Call { callee: Callee, args: Args, result: bool },
    /// Branch to `target`.
    Jump { target: BlockId },
    /// Branch to `then` if the bit `on` is set, to `otherwise` if it is not.
    Branch { on: Operand, then: BlockId, otherwise: BlockId },
    /// Return nothing.
    ReturnVoid,
    /// Return the integer `value`.
    Return { value: Operand },
}

/// One request to the bindings, with the plain values that go into it. Operands
/// stand for the handles that they name; a constant operand stands for the
/// integer that `constant` describes.
pub enum Request {
    /// Add a function with this name and this signature to the module.
    AddFunction { name: Seq<char>, signature: Signature },
    /// Append a block with this name to function `func`.
    AppendBasicBlock { func: usize, name: Seq<char> },
    /// Put the builder at the end of block `at`.
    PositionAtEnd { at: BlockId },
    /// Build the allocation of a cell that holds a value of kind `holds`.
    BuildAlloca { holds: Kind },
    /// Get the first parameter of function `func`.
    FirstParam { func: usize },
    /// Build a load through `from`.
    BuildLoad { from: Operand },
    /// Build a store of `value` through the pointer `through`.
    BuildStore { through: Operand, value: Operand },
    /// Build the conversion of the pointer `value` to an integer of kind `kind`.
    BuildPtrToInt { value: Operand, kind: Kind },
    /// Build the conversion of the integer `value` to a pointer of kind `kind`.
    BuildIntToPtr { value: Operand, kind: Kind },
    /// Build the sum of `lhs` and `rhs`.
    BuildIntAdd { lhs: Operand, rhs: Operand },
    /// Build the difference of `lhs` and `rhs`.
    BuildIntSub { lhs: Operand, rhs: Operand },
    /// Build the extension of `value` with zeros to an integer of kind `kind`.
    BuildIntZExtend { value: Operand, kind: Kind },
    /// Build the comparison of `lhs` and `rhs` for "not equal".
    BuildIntCompareNe { lhs: Operand, rhs: Operand },
    /// Build the call of `callee` with `args`.
    BuildCall { callee: Callee, args: Args },
    /// Build the branch to `target`.
    BuildUnconditionalBranch { target: BlockId },
    /// Build the branch to `then` if `on` is set, to `otherwise` if it is not.
    BuildConditionalBranch { on: Operand, then: BlockId, otherwise: BlockId },
    /// Build the return of `returned`, or of nothing.
    BuildReturn { returned: Option<Operand> },
}

/// What the backend holds after some actions: the names of the declared
/// functions and how many blocks each of them has, how many storage cells are
/// allocated, and the kinds of the values that are made, the latest last.
#[verifier::ext_equal]
pub struct Tables {
    pub names: Seq<FuncName>,
    pub blocks: Seq<nat>,
    pub slots: nat,
    pub values: Seq<Kind>,
}

/// The tables before the first action.
pub open spec fn empty_tables() -> Tables {
    Tables { names: Seq::empty(), blocks: Seq::empty(), slots: 0, values: Seq::empty() }
}

/// A pointer, not an integer.
pub open spec fn is_pointer(kind: Kind) -> bool {
    kind == Kind::Slot || kind == Kind::Cell
}

/// How many bits an integer of this kind has; 0 for a pointer.
pub open spec fn integer_bits(kind: Kind) -> u32 {
    match kind {
        Kind::Slot => 0,
        Kind::Cell => 0,
        Kind::Bit => 1,
        Kind::Byte => 8,
        Kind::Wide => 32,
        Kind::Word => 64,
    }
}

/// The signature of a function of the unit: `Main` takes nothing and returns a
/// byte, a procedure takes a tape position and returns nothing.
pub open spec fn name_signature(name: FuncName) -> Signature {
    match name {
        FuncName::Main => Signature { gives: Some(Kind::Byte), takes: Takes::Nothing },
        FuncName::Proc(_) => Signature { gives: None, takes: Takes::One(Kind::Cell) },
    }
}

/// The signature of `callee`, where `names` are the declared functions:
/// `putchar` takes an integer of 32 bits and returns a byte, `getchar` takes
/// nothing and returns a byte, `calloc` takes two integers of 64 bits and returns
/// a pointer to a byte.
pub open spec fn callee_signature(callee: Callee, names: Seq<FuncName>) -> Signature {
    match callee {
        Callee::Putchar => Signature { gives: Some(Kind::Byte), takes: Takes::One(Kind::Wide) },
        Callee::Getchar => Signature { gives: Some(Kind::Byte), takes: Takes::Nothing },
        Callee::Calloc => Signature {
            gives: Some(Kind::Cell),
            takes: Takes::Two(Kind::Word, Kind::Word),
        },
        Callee::Function(f) => name_signature(names[f as int]),
    }
}

/// The name that the blocks with the label `label` bear in the module.
pub open spec fn label_text(label: Label) -> Seq<char> {
    match label {
        Label::Entry => "entry"@,
        Label::Cond => "cond_block"@,
        Label::Body => "body_block"@,
        Label::End => "end_block"@,
    }
}

/// The name that a function of the unit bears in the module.
pub open spec fn name_text(name: FuncName) -> Seq<char> {
    match name {
        FuncName::Main => "main"@,
        FuncName::Proc(ident) => seq![ident],
    }
}

/// The name that a function of the runtime bears in the module.
pub open spec fn runtime_text(callee: Callee) -> Seq<char> {
    match callee {
        Callee::Putchar => "putchar"@,
        Callee::Getchar => "getchar"@,
        Callee::Calloc => "calloc"@,
        Callee::Function(_) => ""@,
    }
}

/// The kind and the bits of a constant operand.
pub open spec fn constant(operand: Operand) -> Option<(Kind, u64)> {
    match operand {
        Operand::Byte(b) => Some((Kind::Byte, b as u64)),
        Operand::Word(w) => Some((Kind::Word, w)),
        _ => None,
    }
}

/// The kind of the value that `operand` names.
pub open spec fn operand_kind(operand: Operand, t: Tables) -> Kind {
    match operand {
        Operand::Slot(_) => Kind::Slot,
        Operand::Recent(k) => t.values[t.values.len() - 1 - k],
        Operand::Byte(_) => Kind::Byte,
        Operand::Word(_) => Kind::Word,
    }
}

/// The arguments are of the kinds that the function takes.
pub open spec fn args_match(args: Args, takes: Takes, t: Tables) -> bool {
    match (args, takes) {
        (Args::Nothing, Takes::Nothing) => true,
        (Args::One(a), Takes::One(k)) => operand_kind(a, t) == k,
        (Args::Two(a, b), Takes::Two(k, l)) => operand_kind(a, t) == k && operand_kind(b, t) == l,
        _ => false,
    }
}

/// The action asks for values of the kinds that its request takes: a load goes
/// through a pointer, a store puts a tape position into a storage cell or a byte
/// into a tape cell, arithmetic and comparison take two integers of one width, a
/// call takes what the callee's signature says, and so on.
pub open spec fn action_kinded(action: Action, t: Tables) -> bool {
    match action {
        Action::Param { func } => t.names[func as int] is Proc,
        Action::Load { from } => is_pointer(operand_kind(from, t)),
        Action::Store { to, value } => (operand_kind(to, t) == Kind::Slot && operand_kind(value, t)
            == Kind::Cell) || (operand_kind(to, t) == Kind::Cell && operand_kind(value, t)
            == Kind::Byte),
        Action::PtrToInt { value } => operand_kind(value, t) == Kind::Cell,
        Action::IntToPtr { value } => operand_kind(value, t) == Kind::Word,
        Action::Add { lhs, rhs } => !is_pointer(operand_kind(lhs, t)) && operand_kind(lhs, t)
            == operand_kind(rhs, t),
        Action::Sub { lhs, rhs } => !is_pointer(operand_kind(lhs, t)) && operand_kind(lhs, t)
            == operand_kind(rhs, t),
        Action::ZeroExtend { value } => operand_kind(value, t) == Kind::Byte || operand_kind(
            value,
            t,
        ) == Kind::Bit,
        Action::CompareNe { lhs, rhs } => !is_pointer(operand_kind(lhs, t)) && operand_kind(lhs, t)
            == operand_kind(rhs, t),
        Action::Call { callee, args, result } => result == (callee_signature(
            callee,
            t.names,
        ).gives is Some) && args_match(args, callee_signature(callee, t.names).takes, t),
        Action::Branch { on, .. } => operand_kind(on, t) == Kind::Bit,
        Action::Return { value } => operand_kind(value, t) == Kind::Byte,
        _ => true,
    }
}

/// The request that an action leads to.
pub open spec fn request_of(action: Action) -> Request {
    match action {
        Action::Declare { name } => Request::AddFunction {
            name: name_text(name),
            signature: name_signature(name),
        },
        Action::AppendBlock { func, label } => Request::AppendBasicBlock {
            func,
            name: label_text(label),
        },
        Action::Position { at } => Request::PositionAtEnd { at },
        Action::Alloca => Request::BuildAlloca { holds: Kind::Cell },
        Action::Param { func } => Request::FirstParam { func },
        Action::Load { from } => Request::BuildLoad { from },
        Action::Store { to, value } => Request::BuildStore { through: to, value },
        Action::PtrToInt { value } => Request::BuildPtrToInt { value, kind: Kind::Word },
        Action::IntToPtr { value } => Request::BuildIntToPtr { value, kind: Kind::Cell },
        Action::Add { lhs, rhs } => Request::BuildIntAdd { lhs, rhs },
        Action::Sub { lhs, rhs } => Request::BuildIntSub { lhs, rhs },
        Action::ZeroExtend { value } => Request::BuildIntZExtend { value, kind: Kind::Wide },
        Action::CompareNe { lhs, rhs } => Request::BuildIntCompareNe { lhs, rhs },
        Action::Call { callee, args, .. } => Request::BuildCall { callee, args },
        Action::Jump { target } => Request::BuildUnconditionalBranch { target },
        Action::Branch { on, then, otherwise } => Request::BuildConditionalBranch {
            on,
            then,
            otherwise,
        },
        Action::ReturnVoid => Request::BuildReturn { returned: None },
        Action::Return { value } => Request::BuildReturn { returned: Some(value) },
    }
}

/// The request that declares a function of the runtime.
pub open spec fn runtime_request(callee: Callee) -> Request {
    Request::AddFunction {
        name: runtime_text(callee),
        signature: callee_signature(callee, Seq::empty()),
    }
}

/// The requests that a fresh backend has made: the declarations of `putchar`,
/// `getchar` and `calloc`, in this order.
pub open spec fn runtime_requests() -> Seq<Request> {
    seq![
        runtime_request(Callee::Putchar),
        runtime_request(Callee::Getchar),
        runtime_request(Callee::Calloc),
    ]
}

/// Whether the backend can refuse the action: it cannot refuse to declare a
/// function, to append a block or to go to the end of one.
pub open spec fn asks_backend(action: Action) -> bool {
    !(action is Declare || action is AppendBlock || action is Position)
}

/// Everything that `action` names has been made, and is of the kind that the
/// action asks for.
pub open spec fn action_ok(action: Action, t: Tables) -> bool {
    action_fits(action, t) && action_kinded(action, t)
}

/// The storage cell or the value that `operand` names has been made.
pub open spec fn operand_fits(operand: Operand, t: Tables) -> bool {
    match operand {
        Operand::Slot(f) => f < t.slots,
        Operand::Recent(k) => k < t.values.len(),
        Operand::Byte(_) => true,
        Operand::Word(_) => true,
    }
}

/// The block `id` has been appended.
pub open spec fn block_fits(id: BlockId, t: Tables) -> bool {
    id.func < t.blocks.len() && id.index < t.blocks[id.func as int]
}

/// Every argument names what has been made.
pub open spec fn args_fit(args: Args, t: Tables) -> bool {
    match args {
        Args::Nothing => true,
        Args::One(a) => operand_fits(a, t),
        Args::Two(a, b) => operand_fits(a, t) && operand_fits(b, t),
    }
}

/// The function to call has been declared.
pub open spec fn callee_fits(callee: Callee, t: Tables) -> bool {
    match callee {
        Callee::Function(f) => f < t.blocks.len(),
        _ => true,
    }
}

/// Everything that `action` names has been made.
pub open spec fn action_fits(action: Action, t: Tables) -> bool {
    match action {
        Action::Declare { .. } => true,
        Action::AppendBlock { func, .. } => func < t.blocks.len(),
        Action::Position { at } => block_fits(at, t),
        Action::Alloca => true,
        Action::Param { func } => func < t.blocks.len(),
        Action::Load { from } => operand_fits(from, t),
        Action::Store { to, value } => operand_fits(to, t) && operand_fits(value, t),
        Action::PtrToInt { value } => operand_fits(value, t),
        Action::IntToPtr { value } => operand_fits(value, t),
        Action::Add { lhs, rhs } => operand_fits(lhs, t) && operand_fits(rhs, t),
        Action::Sub { lhs, rhs } => operand_fits(lhs, t) && operand_fits(rhs, t),
        Action::ZeroExtend { value } => operand_fits(value, t),
        Action::CompareNe { lhs, rhs } => operand_fits(lhs, t) && operand_fits(rhs, t),
        Action::Call { callee, args, .. } => callee_fits(callee, t) && args_fit(args, t),
        Action::Jump { target } => block_fits(target, t),
        Action::Branch { on, then, otherwise } => operand_fits(on, t) && block_fits(then, t)
            && block_fits(otherwise, t),
        Action::ReturnVoid => true,
        Action::Return { value } => operand_fits(value, t),
    }
}

/// The kind of the value that `action` makes, if it makes one.
pub open spec fn made_kind(action: Action, t: Tables) -> Option<Kind> {
    match action {
        Action::Param { .. } => Some(Kind::Cell),
        Action::Load { from } => Some(
            if operand_kind(from, t) == Kind::Slot {
                Kind::Cell
            } else {
                Kind::Byte
            },
        ),
        Action::PtrToInt { .. } => Some(Kind::Word),
        Action::IntToPtr { .. } => Some(Kind::Cell),
        Action::Add { lhs, .. } => Some(operand_kind(lhs, t)),
        Action::Sub { lhs, .. } => Some(operand_kind(lhs, t)),
        Action::ZeroExtend { .. } => Some(Kind::Wide),
        Action::CompareNe { .. } => Some(Kind::Bit),
        Action::Call { callee, result, .. } => if result {
            Some(
                match callee_signature(callee, t.names).gives {
                    Some(kind) => kind,
                    None => Kind::Byte,
                },
            )
        } else {
            None
        },
        _ => None,
    }
}

/// The tables after `action`.
pub open spec fn tables_after_action(t: Tables, action: Action) -> Tables {
    match action {
        Action::Declare { name } => Tables {
            names: t.names.push(name),
            blocks: t.blocks.push(0),
            ..t
        },
        Action::AppendBlock { func, .. } => Tables {
            blocks: t.blocks.update(func as int, t.blocks[func as int] + 1),
            ..t
        },
        Action::Alloca => Tables { slots: t.slots + 1, ..t },
        _ => match made_kind(action, t) {
            Some(kind) => Tables { values: t.values.push(kind), ..t },
            None => t,
        },
    }
}

/// The tables after `actions`, from the empty tables on.
pub open spec fn tables_after(actions: Seq<Action>) -> Tables
    decreases actions.len(),
{
    if actions.len() == 0 {
        empty_tables()
    } else {
        tables_after_action(tables_after(actions.drop_last()), actions.last())
    }
}

/// Every action names only what the actions before it have made, and asks for
/// values of the kinds that they are.
#[verifier::opaque]
pub open spec fn plan_fits(actions: Seq<Action>) -> bool {
    forall|i: int|
        0 <= i < actions.len() ==> action_ok(#[trigger] actions[i], tables_after(actions.take(i)))
}

/// What a function does before its first block runs: it allocates its storage cell
/// and stores a tape position there, for `Main` the start of a fresh tape of
/// `TAPE_CELLS` zeroed bytes, for a procedure the position that its caller hands
/// over.
pub open spec fn prologue(name: FuncName, func: usize) -> Seq<Action> {
    match name {
        FuncName::Main => seq![
            Action::Alloca,
            Action::Call {
                callee: Callee::Calloc,
                args: Args::Two(Operand::Word(TAPE_CELLS), Operand::Word(1)),
                result: true,
            },
            Action::Store { to: Operand::Slot(func), value: Operand::Recent(0) },
        ],
        FuncName::Proc(_) => seq![
            Action::Alloca,
            Action::Param { func },
            Action::Store { to: Operand::Slot(func), value: Operand::Recent(0) },
        ],
    }
}

/// The actions for one step of a block.
pub open spec fn expand(inst: Inst) -> Seq<Action> {
    match inst {
        Inst::MovePointer { slot, back, count } => seq![
            Action::Load { from: Operand::Slot(slot) },
            Action::PtrToInt { value: Operand::Recent(0) },
            if back {
                Action::Sub { lhs: Operand::Recent(0), rhs: Operand::Word(count) }
            } else {
                Action::Add { lhs: Operand::Recent(0), rhs: Operand::Word(count) }
            },
            Action::IntToPtr { value: Operand::Recent(0) },
            Action::Store { to: Operand::Slot(slot), value: Operand::Recent(0) },
        ],
        Inst::ChangeCell { slot, down, amount } => seq![
            Action::Load { from: Operand::Slot(slot) },
            Action::Load { from: Operand::Recent(0) },
            if down {
                Action::Sub { lhs: Operand::Recent(0), rhs: Operand::Byte(amount) }
            } else {
                Action::Add { lhs: Operand::Recent(0), rhs: Operand::Byte(amount) }
            },
            Action::Store { to: Operand::Recent(2), value: Operand::Recent(0) },
        ],
        Inst::Output { slot } => seq![
            Action::Load { from: Operand::Slot(slot) },
            Action::Load { from: Operand::Recent(0) },
            Action::ZeroExtend { value: Operand::Recent(0) },
            Action::Call {
                callee: Callee::Putchar,
                args: Args::One(Operand::Recent(0)),
                result: true,
            },
        ],
        Inst::Input { slot } => seq![
            Action::Load { from: Operand::Slot(slot) },
            Action::Call { callee: Callee::Getchar, args: Args::Nothing, result: true },
            Action::Store { to: Operand::Recent(1), value: Operand::Recent(0) },
        ],
        Inst::Jump { target } => seq![Action::Jump { target }],
        Inst::Branch { slot, if_nonzero, if_zero } => seq![
            Action::Load { from: Operand::Slot(slot) },
            Action::Load { from: Operand::Recent(0) },
            Action::CompareNe { lhs: Operand::Recent(0), rhs: Operand::Byte(0) },
            Action::Branch { on: Operand::Recent(0), then: if_nonzero, otherwise: if_zero },
        ],
        Inst::Call { callee, slot } => seq![
            Action::Load { from: Operand::Slot(slot) },
            Action::Call {
                callee: Callee::Function(callee),
                args: Args::One(Operand::Recent(0)),
                result: false,
            },
        ],
        Inst::ReturnVoid => seq![Action::ReturnVoid],
        Inst::ReturnZero => seq![Action::Return { value: Operand::Byte(0) }],
    }
}

/// The actions that append the blocks of function `func`.
pub open spec fn block_appends(blocks: Seq<BlockView>, func: usize) -> Seq<Action> {
    Seq::new(blocks.len(), |b: int| Action::AppendBlock { func, label: blocks[b].label })
}

/// The actions that declare function `func`: the declaration, its blocks, and its
/// prologue at the end of its first block.
pub open spec fn declaration(function: FunctionView, func: usize) -> Seq<Action> {
    seq![Action::Declare { name: function.name }] + block_appends(function.blocks, func)
        + seq![Action::Position { at: BlockId { func, index: 0 } }] + prologue(
        function.name,
        func,
    )
}

/// The declarations of `funcs`, in order.
pub open spec fn declarations(funcs: Seq<FunctionView>) -> Seq<Action>
    decreases funcs.len(),
{
    if funcs.len() == 0 {
        Seq::empty()
    } else {
        declarations(funcs.drop_last()) + declaration(funcs.last(), (funcs.len() - 1) as usize)
    }
}

/// The actions for the steps `insts`, in order.
pub open spec fn expand_all(insts: Seq<Inst>) -> Seq<Action>
    decreases insts.len(),
{
    if insts.len() == 0 {
        Seq::empty()
    } else {
        expand_all(insts.drop_last()) + expand(insts.last())
    }
}

/// The actions for the blocks `blocks` of function `func`: for each block, go to
/// its end, then take its steps.
pub open spec fn function_code(blocks: Seq<BlockView>, func: usize) -> Seq<Action>
    decreases blocks.len(),
{
    if blocks.len() == 0 {
        Seq::empty()
    } else {
        function_code(blocks.drop_last(), func) + seq![
            Action::Position { at: BlockId { func, index: (blocks.len() - 1) as usize } },
        ] + expand_all(blocks.last().insts)
    }
}

/// The actions for the blocks of `funcs`, in order.
pub open spec fn unit_code(funcs: Seq<FunctionView>) -> Seq<Action>
    decreases funcs.len(),
{
    if funcs.len() == 0 {
        Seq::empty()
    } else {
        unit_code(funcs.drop_last()) + function_code(
            funcs.last().blocks,
            (funcs.len() - 1) as usize,
        )
    }
}

/// The actions that build the unit: all declarations, then all blocks.
pub open spec fn plan_of(u: UnitView) -> Seq<Action> {
    declarations(u.funcs) + unit_code(u.funcs)
}

/// The tables once the first `n` functions of `u` are declared.
pub open spec fn declared(u: UnitView, n: nat) -> Tables {
    Tables {
        names: Seq::new(n, |f: int| u.funcs[f].name),
        blocks: Seq::new(n, |f: int| u.funcs[f].blocks.len()),
        slots: n,
        values: Seq::new(n, |f: int| Kind::Cell),
    }
}

/// The tables hold every function, block and storage cell of `u`.
pub open spec fn holds_unit(t: Tables, u: UnitView) -> bool {
    t.names == declared(u, u.funcs.len()).names && t.blocks == declared(u, u.funcs.len()).blocks
        && t.slots == u.funcs.len()
}

/// Everything that the step `inst` names has been made.
pub open spec fn inst_fits(inst: Inst, t: Tables) -> bool {
    match inst {
        Inst::MovePointer { slot, .. } => slot < t.slots,
        Inst::ChangeCell { slot, .. } => slot < t.slots,
        Inst::Output { slot } => slot < t.slots,
        Inst::Input { slot } => slot < t.slots,
        Inst::Jump { target } => block_fits(target, t),
        Inst::Branch { slot, if_nonzero, if_zero } => slot < t.slots && block_fits(if_nonzero, t)
            && block_fits(if_zero, t),
        Inst::Call { callee, slot } => callee < t.blocks.len() && t.names[callee as int] is Proc
            && slot < t.slots,
        Inst::ReturnVoid => true,
        Inst::ReturnZero => true,
    }
}

/// A plan without actions fits.
pub proof fn lemma_plan_fits_empty()
    ensures
        plan_fits(Seq::<Action>::empty()),
{
    reveal(plan_fits);
}

/// In a plan that fits, each action fits the tables that the actions before it
/// leave.
pub proof fn lemma_plan_fits_at(actions: Seq<Action>, i: int)
    requires
        plan_fits(actions),
        0 <= i < actions.len(),
    ensures
        action_ok(actions[i], tables_after(actions.take(i))),
{
    reveal(plan_fits);
}

/// A plan that fits still fits with one more action that fits.
pub proof fn lemma_plan_fits_push(actions: Seq<Action>)
    requires
        actions.len() > 0,
        plan_fits(actions.drop_last()),
        action_ok(actions.last(), tables_after(actions.drop_last())),
    ensures
        plan_fits(actions),
{
    reveal(plan_fits);
    let front = actions.drop_last();
    assert forall|j: int| 0 <= j < actions.len() implies action_ok(
        #[trigger] actions[j],
        tables_after(actions.take(j)),
    ) by {
        if j < front.len() {
            assert(actions.take(j) =~= front.take(j));
            assert(actions[j] == front[j]);
        } else {
            assert(actions.take(j) =~= front);
        }
    }
}

fn push_action(plan: &mut Vec<Action>, action: Action)
    requires
        plan_fits(old(plan)@),
        action_ok(action, tables_after(old(plan)@)),
    ensures
        final(plan)@ == old(plan)@.push(action),
        plan_fits(final(plan)@),
        tables_after(final(plan)@) == tables_after_action(tables_after(old(plan)@), action),
{
    plan.push(action);
    proof {
        assert(plan@.drop_last() =~= old(plan)@);
        lemma_plan_fits_push(plan@);
    }
}

fn push_move(plan: &mut Vec<Action>, slot: usize, back: bool, count: u64)
    requires
        plan_fits(old(plan)@),
        slot < tables_after(old(plan)@).slots,
    ensures
        final(plan)@ == old(plan)@ + expand(Inst::MovePointer { slot, back, count }),
        plan_fits(final(plan)@),
        tables_after(final(plan)@).names == tables_after(old(plan)@).names,
        tables_after(final(plan)@).blocks == tables_after(old(plan)@).blocks,
        tables_after(final(plan)@).slots == tables_after(old(plan)@).slots,
{
    push_action(plan, Action::Load { from: Operand::Slot(slot) });
    push_action(plan, Action::PtrToInt { value: Operand::Recent(0) });
    if back {
        push_action(plan, Action::Sub { lhs: Operand::Recent(0), rhs: Operand::Word(count) });
    } else {
        push_action(plan, Action::Add { lhs: Operand::Recent(0), rhs: Operand::Word(count) });
    }
    push_action(plan, Action::IntToPtr { value: Operand::Recent(0) });
    push_action(plan, Action::Store { to: Operand::Slot(slot), value: Operand::Recent(0) });
    assert(plan@ =~= old(plan)@ + expand(Inst::MovePointer { slot, back, count }));
}

fn push_change(plan: &mut Vec<Action>, slot: usize, down: bool, amount: u8)
    requires
        plan_fits(old(plan)@),
        slot < tables_after(old(plan)@).slots,
    ensures
        final(plan)@ == old(plan)@ + expand(Inst::ChangeCell { slot, down, amount }),
        plan_fits(final(plan)@),
        tables_after(final(plan)@).names == tables_after(old(plan)@).names,
        tables_after(final(plan)@).blocks == tables_after(old(plan)@).blocks,
        tables_after(final(plan)@).slots == tables_after(old(plan)@).slots,
{
    push_action(plan, Action::Load { from: Operand::Slot(slot) });
    push_action(plan, Action::Load { from: Operand::Recent(0) });
    if down {
        push_action(plan, Action::Sub { lhs: Operand::Recent(0), rhs: Operand::Byte(amount) });
    } else {
        push_action(plan, Action::Add { lhs: Operand::Recent(0), rhs: Operand::Byte(amount) });
    }
    push_action(plan, Action::Store { to: Operand::Recent(2), value: Operand::Recent(0) });
    assert(plan@ =~= old(plan)@ + expand(Inst::ChangeCell { slot, down, amount }));
}

fn push_output(plan: &mut Vec<Action>, slot: usize)
    requires
        plan_fits(old(plan)@),
        slot < tables_after(old(plan)@).slots,
    ensures
        final(plan)@ == old(plan)@ + expand(Inst::Output { slot }),
        plan_fits(final(plan)@),
        tables_after(final(plan)@).names == tables_after(old(plan)@).names,
        tables_after(final(plan)@).blocks == tables_after(old(plan)@).blocks,
        tables_after(final(plan)@).slots == tables_after(old(plan)@).slots,
{
    push_action(plan, Action::Load { from: Operand::Slot(slot) });
    push_action(plan, Action::Load { from: Operand::Recent(0) });
    push_action(plan, Action::ZeroExtend { value: Operand::Recent(0) });
    push_action(
        plan,
        Action::Call { callee: Callee::Putchar, args: Args::One(Operand::Recent(0)), result: true },
    );
    assert(plan@ =~= old(plan)@ + expand(Inst::Output { slot }));
}

fn push_input(plan: &mut Vec<Action>, slot: usize)
    requires
        plan_fits(old(plan)@),
        slot < tables_after(old(plan)@).slots,
    ensures
        final(plan)@ == old(plan)@ + expand(Inst::Input { slot }),
        plan_fits(final(plan)@),
        tables_after(final(plan)@).names == tables_after(old(plan)@).names,
        tables_after(final(plan)@).blocks == tables_after(old(plan)@).blocks,
        tables_after(final(plan)@).slots == tables_after(old(plan)@).slots,
{
    push_action(plan, Action::Load { from: Operand::Slot(slot) });
    push_action(plan, Action::Call { callee: Callee::Getchar, args: Args::Nothing, result: true });
    push_action(plan, Action::Store { to: Operand::Recent(1), value: Operand::Recent(0) });
    assert(plan@ =~= old(plan)@ + expand(Inst::Input { slot }));
}

fn push_branch(plan: &mut Vec<Action>, slot: usize, if_nonzero: BlockId, if_zero: BlockId)
    requires
        plan_fits(old(plan)@),
        slot < tables_after(old(plan)@).slots,
        block_fits(if_nonzero, tables_after(old(plan)@)),
        block_fits(if_zero, tables_after(old(plan)@)),
    ensures
        final(plan)@ == old(plan)@ + expand(Inst::Branch { slot, if_nonzero, if_zero }),
        plan_fits(final(plan)@),
        tables_after(final(plan)@).names == tables_after(old(plan)@).names,
        tables_after(final(plan)@).blocks == tables_after(old(plan)@).blocks,
        tables_after(final(plan)@).slots == tables_after(old(plan)@).slots,
{
    push_action(plan, Action::Load { from: Operand::Slot(slot) });
    push_action(plan, Action::Load { from: Operand::Recent(0) });
    push_action(plan, Action::CompareNe { lhs: Operand::Recent(0), rhs: Operand::Byte(0) });
    push_action(
        plan,
        Action::Branch { on: Operand::Recent(0), then: if_nonzero, otherwise: if_zero },
    );
    assert(plan@ =~= old(plan)@ + expand(Inst::Branch { slot, if_nonzero, if_zero }));
}

fn push_call(plan: &mut Vec<Action>, callee: usize, slot: usize)
    requires
        plan_fits(old(plan)@),
        slot < tables_after(old(plan)@).slots,
        callee < tables_after(old(plan)@).blocks.len(),
        tables_after(old(plan)@).names[callee as int] is Proc,
    ensures
        final(plan)@ == old(plan)@ + expand(Inst::Call { callee, slot }),
        plan_fits(final(plan)@),
        tables_after(final(plan)@).names == tables_after(old(plan)@).names,
        tables_after(final(plan)@).blocks == tables_after(old(plan)@).blocks,
        tables_after(final(plan)@).slots == tables_after(old(plan)@).slots,
{
    push_action(plan, Action::Load { from: Operand::Slot(slot) });
    push_action(
        plan,
        Action::Call {
            callee: Callee::Function(callee),
            args: Args::One(Operand::Recent(0)),
            result: false,
        },
    );
    assert(plan@ =~= old(plan)@ + expand(Inst::Call { callee, slot }));
}

fn push_expansion(plan: &mut Vec<Action>, inst: Inst)
    requires
        plan_fits(old(plan)@),
        inst_fits(inst, tables_after(old(plan)@)),
    ensures
        final(plan)@ == old(plan)@ + expand(inst),
        plan_fits(final(plan)@),
        tables_after(final(plan)@).names == tables_after(old(plan)@).names,
        tables_after(final(plan)@).blocks == tables_after(old(plan)@).blocks,
        tables_after(final(plan)@).slots == tables_after(old(plan)@).slots,
{
    match inst {
        Inst::MovePointer { slot, back, count } => push_move(plan, slot, back, count),
        Inst::ChangeCell { slot, down, amount } => push_change(plan, slot, down, amount),
        Inst::Output { slot } => push_output(plan, slot),
        Inst::Input { slot } => push_input(plan, slot),
        Inst::Jump { target } => {
            push_action(plan, Action::Jump { target });
            assert(plan@ =~= old(plan)@ + expand(inst));
        },
        Inst::Branch { slot, if_nonzero, if_zero } => push_branch(plan, slot, if_nonzero, if_zero),
        Inst::Call { callee, slot } => push_call(plan, callee, slot),
        Inst::ReturnVoid => {
            push_action(plan, Action::ReturnVoid);
            assert(plan@ =~= old(plan)@ + expand(inst));
        },
        Inst::ReturnZero => {
            push_action(plan, Action::Return { value: Operand::Byte(0) });
            assert(plan@ =~= old(plan)@ + expand(inst));
        },
    }
}

/// A step that is sound in a unit fits the tables that hold the unit.
proof fn lemma_inst_fits(inst: Inst, u: UnitView, t: Tables)
    requires
        inst_ok(inst, u),
        holds_unit(t, u),
    ensures
        inst_fits(inst, t),
{
}

fn push_block_appends(plan: &mut Vec<Action>, unit: &Unit, func: usize)
    requires
        func < unit@.funcs.len(),
        plan_fits(old(plan)@),
        tables_after(old(plan)@).blocks.len() == func + 1,
        tables_after(old(plan)@).blocks[func as int] == 0,
    ensures
        final(plan)@ == old(plan)@ + block_appends(unit@.funcs[func as int].blocks, func),
        plan_fits(final(plan)@),
        tables_after(final(plan)@) == (Tables {
            blocks: tables_after(old(plan)@).blocks.update(
                func as int,
                unit@.funcs[func as int].blocks.len(),
            ),
            ..tables_after(old(plan)@)
        }),
{
    let function = &unit.funcs[func];
    let ghost blocks = unit@.funcs[func as int].blocks;
    let ghost start = tables_after(plan@);
    let mut b: usize = 0;
    assert(start =~= (Tables { blocks: start.blocks.update(func as int, 0), ..start }));
    assert(plan@ =~= old(plan)@ + block_appends(blocks.take(0), func));
    while b < function.blocks.len()
        invariant
            b <= function.blocks.len(),
            function@.blocks == blocks,
            start.blocks.len() == func + 1,
            plan_fits(plan@),
            plan@ == old(plan)@ + block_appends(blocks.take(b as int), func),
            tables_after(plan@) == (Tables {
                blocks: start.blocks.update(func as int, b as nat),
                ..start
            }),
        decreases function.blocks.len() - b,
    {
        let ghost t = tables_after(plan@);
        push_action(plan, Action::AppendBlock { func, label: function.blocks[b].label });
        proof {
            assert(plan@ =~= old(plan)@ + block_appends(blocks.take(b + 1), func));
            assert(t.blocks.update(func as int, t.blocks[func as int] + 1) =~= start.blocks.update(
                func as int,
                (b + 1) as nat,
            ));
        }
        b += 1;
    }
    proof {
        assert(blocks.take(b as int) =~= blocks);
    }
}

fn push_prologue(plan: &mut Vec<Action>, name: FuncName, func: usize)
    requires
        plan_fits(old(plan)@),
        tables_after(old(plan)@).blocks.len() == func + 1,
        tables_after(old(plan)@).slots == func,
        tables_after(old(plan)@).names[func as int] == name,
    ensures
        final(plan)@ == old(plan)@ + prologue(name, func),
        plan_fits(final(plan)@),
        tables_after(final(plan)@) == (Tables {
            slots: tables_after(old(plan)@).slots + 1,
            values: tables_after(old(plan)@).values.push(Kind::Cell),
            ..tables_after(old(plan)@)
        }),
{
    push_action(plan, Action::Alloca);
    match name {
        FuncName::Main => {
            push_action(
                plan,
                Action::Call {
                    callee: Callee::Calloc,
                    args: Args::Two(Operand::Word(TAPE_CELLS), Operand::Word(1)),
                    result: true,
                },
            );
        },
        FuncName::Proc(_) => {
            push_action(plan, Action::Param { func });
        },
    }
    push_action(plan, Action::Store { to: Operand::Slot(func), value: Operand::Recent(0) });
    assert(plan@ =~= old(plan)@ + prologue(name, func));
}

fn push_declaration(plan: &mut Vec<Action>, unit: &Unit, func: usize)
    requires
        unit_wf(unit@),
        func < unit@.funcs.len(),
        plan_fits(old(plan)@),
        tables_after(old(plan)@) == declared(unit@, func as nat),
    ensures
        final(plan)@ == old(plan)@ + declaration(unit@.funcs[func as int], func),
        plan_fits(final(plan)@),
        tables_after(final(plan)@) == declared(unit@, (func + 1) as nat),
{
    let name = unit.funcs[func].name;
    let ghost fv = unit@.funcs[func as int];
    push_action(plan, Action::Declare { name });
    let ghost a = plan@;
    push_block_appends(plan, unit, func);
    let ghost b = plan@;
    assert(fv.blocks.len() >= 1);
    push_action(plan, Action::Position { at: BlockId { func, index: 0 } });
    let ghost c = plan@;
    push_prologue(plan, name, func);
    proof {
        assert(plan@ =~= old(plan)@ + declaration(fv, func));
        assert(tables_after(plan@) =~= declared(unit@, (func + 1) as nat));
    }
}

fn push_block_code(plan: &mut Vec<Action>, unit: &Unit, func: usize, index: usize)
    requires
        unit_wf(unit@),
        func < unit@.funcs.len(),
        index < unit@.funcs[func as int].blocks.len(),
        plan_fits(old(plan)@),
        holds_unit(tables_after(old(plan)@), unit@),
    ensures
        final(plan)@ == old(plan)@ + seq![Action::Position { at: BlockId { func, index } }]
            + expand_all(unit@.funcs[func as int].blocks[index as int].insts),
        plan_fits(final(plan)@),
        holds_unit(tables_after(final(plan)@), unit@),
{
    let block = &unit.funcs[func].blocks[index];
    let ghost insts = unit@.funcs[func as int].blocks[index as int].insts;
    push_action(plan, Action::Position { at: BlockId { func, index } });
    let ghost base = plan@;
    let mut k: usize = 0;
    while k < block.insts.len()
        invariant
            k <= block.insts.len(),
            block.insts@ == insts,
            unit_wf(unit@),
            func < unit@.funcs.len(),
            index < unit@.funcs[func as int].blocks.len(),
            insts == unit@.funcs[func as int].blocks[index as int].insts,
            plan_fits(plan@),
            holds_unit(tables_after(plan@), unit@),
            plan@ == base + expand_all(insts.take(k as int)),
        decreases block.insts.len() - k,
    {
        proof {
            assert(insts.take(k + 1).drop_last() =~= insts.take(k as int));
            assert(insts.take(k + 1).last() == insts[k as int]);
            assert(inst_ok(unit@.funcs[func as int].blocks[index as int].insts[k as int], unit@));
        }
        proof {
            lemma_inst_fits(insts[k as int], unit@, tables_after(plan@));
        }
        push_expansion(plan, block.insts[k]);
        proof {
            assert(plan@ =~= base + expand_all(insts.take(k + 1)));
        }
        k += 1;
    }
    proof {
        assert(insts.take(k as int) =~= insts);
    }
}

fn push_function_code(plan: &mut Vec<Action>, unit: &Unit, func: usize)
    requires
        unit_wf(unit@),
        func < unit@.funcs.len(),
        plan_fits(old(plan)@),
        holds_unit(tables_after(old(plan)@), unit@),
    ensures
        final(plan)@ == old(plan)@ + function_code(unit@.funcs[func as int].blocks, func),
        plan_fits(final(plan)@),
        holds_unit(tables_after(final(plan)@), unit@),
{
    let ghost blocks = unit@.funcs[func as int].blocks;
    let n = unit.funcs[func].blocks.len();
    let mut b: usize = 0;
    while b < n
        invariant
            b <= n,
            n == blocks.len(),
            unit_wf(unit@),
            func < unit@.funcs.len(),
            blocks == unit@.funcs[func as int].blocks,
            plan_fits(plan@),
            holds_unit(tables_after(plan@), unit@),
            plan@ == old(plan)@ + function_code(blocks.take(b as int), func),
        decreases n - b,
    {
        proof {
            assert(blocks.take(b + 1).drop_last() =~= blocks.take(b as int));
            assert(blocks.take(b + 1).last() == blocks[b as int]);
        }
        push_block_code(plan, unit, func, b);
        proof {
            assert(plan@ =~= old(plan)@ + function_code(blocks.take(b + 1), func));
        }
        b += 1;
    }
    proof {
        assert(blocks.take(b as int) =~= blocks);
    }
}

/// The actions that build `unit` in the backend. Each of them names only what the
/// actions before it make.
pub fn plan(unit: &Unit) -> (actions: Vec<Action>)
    requires
        unit_wf(unit@),
    ensures
        actions@ == plan_of(unit@),
        plan_fits(actions@),
{
    let mut actions: Vec<Action> = Vec::new();
    let n = unit.funcs.len();
    let ghost funcs = unit@.funcs;
    let mut f: usize = 0;
    proof {
        lemma_plan_fits_empty();
        assert(tables_after(actions@) =~= declared(unit@, 0));
    }
    while f < n
        invariant
            f <= n,
            n == funcs.len(),
            funcs == unit@.funcs,
            unit_wf(unit@),
            plan_fits(actions@),
            actions@ == declarations(funcs.take(f as int)),
            tables_after(actions@) == declared(unit@, f as nat),
        decreases n - f,
    {
        proof {
            assert(funcs.take(f + 1).drop_last() =~= funcs.take(f as int));
            assert(funcs.take(f + 1).last() == funcs[f as int]);
        }
        push_declaration(&mut actions, unit, f);
        f += 1;
    }
    proof {
        assert(funcs.take(f as int) =~= funcs);
    }
    let ghost base = actions@;
    let mut g: usize = 0;
    while g < n
        invariant
            g <= n,
            n == funcs.len(),
            funcs == unit@.funcs,
            unit_wf(unit@),
            base == declarations(funcs),
            plan_fits(actions@),
            holds_unit(tables_after(actions@), unit@),
            actions@ == base + unit_code(funcs.take(g as int)),
        decreases n - g,
    {
        proof {
            assert(funcs.take(g + 1).drop_last() =~= funcs.take(g as int));
            assert(funcs.take(g + 1).last() == funcs[g as int]);
        }
        push_function_code(&mut actions, unit, g);
        proof {
            assert(actions@ =~= base + unit_code(funcs.take(g + 1)));
        }
        g += 1;
    }
    proof {
        assert(funcs.take(g as int) =~= funcs);
    }
    actions
}

} // verus!
