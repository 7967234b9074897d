use vstd::prelude::*;

verus! {

/// How many cells the tape of a running program has.
pub const TAPE_CELLS: u64 = 1000;

/// The number of the program's entry function.
pub const MAIN: usize = 0;

/// What a block is for.
#[derive(Clone, Copy, Debug, PartialEq, Eq, Structural)]
pub enum Label {
    /// The first block of a function.
    Entry,
    /// The block that tests a loop's condition.
    Cond,
    /// The first block of a loop's body.
    Body,
    /// The block that follows a loop.
    End,
}

/// The name of a function of the unit.
#[derive(Clone, Copy, Debug, PartialEq, Eq, Structural)]
pub enum FuncName {
    /// The program itself. It takes nothing and returns a byte.
    Main,
    /// The procedure that the source names by this character. It takes a tape
    /// position and returns nothing.
    Proc(char),
}

/// A block of the unit: block number `index` of function number `func`.
#[derive(Clone, Copy, Debug, PartialEq, Eq, Structural)]
pub struct BlockId {
    pub func: usize,
    pub index: usize,
}

/// One step of a block. A `slot` is the number of a function: it stands for that
/// function's storage cell, which holds a tape position.
#[derive(Clone, Copy, Debug, PartialEq, Eq, Structural)]
pub enum Inst {
    /// Move the position held in `slot` by `count` cells, backwards if `back`.
    MovePointer { slot: usize, back: bool, count: u64 },
    /// Add `amount` to the cell at the position held in `slot`, or subtract it if
    /// `down`. The cell is a byte and wraps.
    ChangeCell { slot: usize, down: bool, amount: u8 },
    /// Write the cell at the position held in `slot`.
    Output { slot: usize },
    /// Read one byte into the cell at the position held in `slot`.
    Input { slot: usize },
    /// Go on at the start of block `target`.
    Jump { target: BlockId },
    /// Go on at `if_nonzero` if the cell at the position held in `slot` is not
    /// zero, at `if_zero` if it is.
    Branch { slot: usize, if_nonzero: BlockId, if_zero: BlockId },
    /// Call function `callee` with the position held in `slot`.
    Call { callee: usize, slot: usize },
    /// Leave a procedure.
    ReturnVoid,
    /// Leave the program with the byte zero.
    ReturnZero,
}

/// A block: a list of steps.
#[derive(Debug, PartialEq, Eq)]
pub struct Block {
    pub label: Label,
    pub insts: Vec<Inst>,
}

/// What a `Block` holds.
#[verifier::ext_equal]
pub struct BlockView {
    pub label: Label,
    pub insts: Seq<Inst>,
}

impl View for Block {
    type V = BlockView;

    open spec fn view(&self) -> BlockView {
        BlockView { label: self.label, insts: self.insts@ }
    }
}

/// A function of the unit, with its blocks in the order in which they were made.
///
/// Function number `i` owns storage cell number `i`. On entry `Main` allocates the
/// zeroed tape and stores its start there; a procedure stores the position that
/// its caller handed over. Then the function's first block runs.
#[derive(Debug, PartialEq, Eq)]
pub struct Function {
    pub name: FuncName,
    pub blocks: Vec<Block>,
}

/// What a `Function` holds.
#[verifier::ext_equal]
pub struct FunctionView {
    pub name: FuncName,
    pub blocks: Seq<BlockView>,
}

impl View for Function {
    type V = FunctionView;

    open spec fn view(&self) -> FunctionView {
        FunctionView {
            name: self.name,
            blocks: Seq::new(self.blocks@.len(), |i: int| self.blocks@[i]@),
        }
    }
}

/// The program under construction: its functions in the order in which they were
/// made, `Main` first.
#[derive(Debug, PartialEq, Eq)]
pub struct Unit {
    pub funcs: Vec<Function>,
}

/// What a `Unit` holds.
#[verifier::ext_equal]
pub struct UnitView {
    pub funcs: Seq<FunctionView>,
}

impl View for Unit {
    type V = UnitView;

    open spec fn view(&self) -> UnitView {
        UnitView { funcs: Seq::new(self.funcs@.len(), |i: int| self.funcs@[i]@) }
    }
}

/// The unit has the block `id`.
pub open spec fn has_block(u: UnitView, id: BlockId) -> bool {
    id.func < u.funcs.len() && id.index < u.funcs[id.func as int].blocks.len()
}

/// Every number in `inst` names a function or a block of the unit, and what it
/// calls is a procedure.
pub open spec fn inst_ok(inst: Inst, u: UnitView) -> bool {
    match inst {
        Inst::MovePointer { slot, .. } => slot < u.funcs.len(),
        Inst::ChangeCell { slot, .. } => slot < u.funcs.len(),
        Inst::Output { slot } => slot < u.funcs.len(),
        Inst::Input { slot } => slot < u.funcs.len(),
        Inst::Jump { target } => has_block(u, target),
        Inst::Branch { slot, if_nonzero, if_zero } => slot < u.funcs.len() && has_block(
            u,
            if_nonzero,
        ) && has_block(u, if_zero),
        Inst::Call { callee, slot } => callee < u.funcs.len() && u.funcs[callee as int].name
            is Proc && slot < u.funcs.len(),
        Inst::ReturnVoid => true,
        Inst::ReturnZero => true,
    }
}

/// The unit starts with `Main`, every function has a first block, every number in
/// a step names a function or a block of the unit, and what a step calls is a
/// procedure.
pub open spec fn unit_wf(u: UnitView) -> bool {
    &&& u.funcs.len() >= 1
    &&& u.funcs[0].name == FuncName::Main
    &&& forall|f: int| 0 <= f < u.funcs.len() ==> (#[trigger] u.funcs[f]).blocks.len() >= 1
    &&& forall|f: int, b: int, k: int|
        0 <= f < u.funcs.len() && 0 <= b < u.funcs[f].blocks.len() && 0 <= k
            < u.funcs[f].blocks[b].insts.len() ==> inst_ok(
            #[trigger] u.funcs[f].blocks[b].insts[k],
            u,
        )
}

/// Every number in a step of block `b` of function `f` names a function or a block
/// of the unit.
pub open spec fn block_ok(u: UnitView, f: int, b: int) -> bool {
    forall|k: int|
        0 <= k < u.funcs[f].blocks[b].insts.len() ==> inst_ok(
            #[trigger] u.funcs[f].blocks[b].insts[k],
            u,
        )
}

/// Function `f` has a first block, and all its blocks are sound.
pub open spec fn function_ok(u: UnitView, f: int) -> bool {
    &&& u.funcs[f].blocks.len() >= 1
    &&& forall|b: int| 0 <= b < u.funcs[f].blocks.len() ==> #[trigger] block_ok(u, f, b)
}

/// A unit is sound if and only if it starts with `Main` and each of its functions
/// is sound.
pub proof fn lemma_unit_wf_by_function(u: UnitView)
    ensures
        unit_wf(u) <==> (u.funcs.len() >= 1 && u.funcs[0].name == FuncName::Main && forall|f: int|
            0 <= f < u.funcs.len() ==> #[trigger] function_ok(u, f)),
{
    if unit_wf(u) {
        assert forall|f: int| 0 <= f < u.funcs.len() implies #[trigger] function_ok(u, f) by {
            assert(u.funcs[f].blocks.len() >= 1);
            assert forall|b: int| 0 <= b < u.funcs[f].blocks.len() implies #[trigger] block_ok(
                u,
                f,
                b,
            ) by {}
        }
    }
    if u.funcs.len() >= 1 && u.funcs[0].name == FuncName::Main && forall|f: int|
        0 <= f < u.funcs.len() ==> #[trigger] function_ok(u, f) {
        assert forall|f: int| 0 <= f < u.funcs.len() implies (#[trigger] u.funcs[f]).blocks.len()
            >= 1 by {
            assert(function_ok(u, f));
        }
        assert forall|f: int, b: int, k: int|
            0 <= f < u.funcs.len() && 0 <= b < u.funcs[f].blocks.len() && 0 <= k
                < u.funcs[f].blocks[b].insts.len() implies inst_ok(
            #[trigger] u.funcs[f].blocks[b].insts[k],
            u,
        ) by {
            assert(function_ok(u, f));
            assert(block_ok(u, f, b));
        }
    }
}

/// `v` has every function and every block that `u` has, the functions under the
/// names that they have in `u`.
pub open spec fn covers(u: UnitView, v: UnitView) -> bool {
    &&& u.funcs.len() <= v.funcs.len()
    &&& forall|f: int|
        0 <= f < u.funcs.len() ==> u.funcs[f].blocks.len() <= (#[trigger] v.funcs[f]).blocks.len()
            && u.funcs[f].name == v.funcs[f].name
}

/// The unit of the empty program: `Main` with an empty entry block.
pub open spec fn empty_unit() -> UnitView {
    UnitView {
        funcs: seq![
            FunctionView {
                name: FuncName::Main,
                blocks: seq![BlockView { label: Label::Entry, insts: Seq::empty() }],
            },
        ],
    }
}

/// `u` with `inst` added at the end of block `at`.
pub open spec fn with_inst(u: UnitView, at: BlockId, inst: Inst) -> UnitView {
    let func = u.funcs[at.func as int];
    let block = func.blocks[at.index as int];
    UnitView {
        funcs: u.funcs.update(
            at.func as int,
            FunctionView {
                blocks: func.blocks.update(
                    at.index as int,
                    BlockView { insts: block.insts.push(inst), ..block },
                ),
                ..func
            },
        ),
    }
}

/// `u` with a new empty block at the end of function `func`.
pub open spec fn with_block(u: UnitView, func: usize, label: Label) -> UnitView {
    let f = u.funcs[func as int];
    UnitView {
        funcs: u.funcs.update(
            func as int,
            FunctionView { blocks: f.blocks.push(BlockView { label, insts: Seq::empty() }), ..f },
        ),
    }
}

/// `u` with a new function that has an empty entry block. The function's number is
/// the number of functions that `u` had.
pub open spec fn with_function(u: UnitView, name: FuncName) -> UnitView {
    UnitView {
        funcs: u.funcs.push(
            FunctionView {
                name,
                blocks: seq![BlockView { label: Label::Entry, insts: Seq::empty() }],
            },
        ),
    }
}

/// A step that is sound in a unit is sound in every unit that covers it.
pub proof fn lemma_covers_inst(inst: Inst, u: UnitView, v: UnitView)
    requires
        inst_ok(inst, u),
        covers(u, v),
    ensures
        inst_ok(inst, v),
{
    match inst {
        Inst::Jump { target } => {
            assert(u.funcs[target.func as int].blocks.len()
                <= v.funcs[target.func as int].blocks.len());
        },
        Inst::Branch { slot, if_nonzero, if_zero } => {
            assert(u.funcs[if_nonzero.func as int].blocks.len()
                <= v.funcs[if_nonzero.func as int].blocks.len());
            assert(u.funcs[if_zero.func as int].blocks.len()
                <= v.funcs[if_zero.func as int].blocks.len());
        },
        Inst::Call { callee, slot } => {
            assert(u.funcs[callee as int].name == v.funcs[callee as int].name);
        },
        _ => {},
    }
}

/// One more sound step keeps a sound unit sound.
pub proof fn lemma_with_inst_wf(u: UnitView, at: BlockId, inst: Inst)
    requires
        unit_wf(u),
        has_block(u, at),
        inst_ok(inst, u),
    ensures
        unit_wf(with_inst(u, at, inst)),
        covers(u, with_inst(u, at, inst)),
{
    let v = with_inst(u, at, inst);
    assert(covers(u, v));
    assert forall|f: int, b: int, k: int|
        0 <= f < v.funcs.len() && 0 <= b < v.funcs[f].blocks.len() && 0 <= k
            < v.funcs[f].blocks[b].insts.len() implies inst_ok(
        #[trigger] v.funcs[f].blocks[b].insts[k],
        v,
    ) by {
        if f == at.func && b == at.index && k == u.funcs[f].blocks[b].insts.len() {
            lemma_covers_inst(inst, u, v);
        } else {
            assert(v.funcs[f].blocks[b].insts[k] == u.funcs[f].blocks[b].insts[k]);
            lemma_covers_inst(u.funcs[f].blocks[b].insts[k], u, v);
        }
    }
}

/// One more block keeps a sound unit sound.
pub proof fn lemma_with_block_wf(u: UnitView, func: usize, label: Label)
    requires
        unit_wf(u),
        func < u.funcs.len(),
    ensures
        unit_wf(with_block(u, func, label)),
        covers(u, with_block(u, func, label)),
{
    let v = with_block(u, func, label);
    assert(covers(u, v));
    assert forall|f: int, b: int, k: int|
        0 <= f < v.funcs.len() && 0 <= b < v.funcs[f].blocks.len() && 0 <= k
            < v.funcs[f].blocks[b].insts.len() implies inst_ok(
        #[trigger] v.funcs[f].blocks[b].insts[k],
        v,
    ) by {
        assert(v.funcs[f].blocks[b].insts[k] == u.funcs[f].blocks[b].insts[k]);
        lemma_covers_inst(u.funcs[f].blocks[b].insts[k], u, v);
    }
}

/// One more function keeps a sound unit sound.
pub proof fn lemma_with_function_wf(u: UnitView, name: FuncName)
    requires
        unit_wf(u),
    ensures
        unit_wf(with_function(u, name)),
        covers(u, with_function(u, name)),
{
    let v = with_function(u, name);
    assert(covers(u, v));
    assert forall|f: int, b: int, k: int|
        0 <= f < v.funcs.len() && 0 <= b < v.funcs[f].blocks.len() && 0 <= k
            < v.funcs[f].blocks[b].insts.len() implies inst_ok(
        #[trigger] v.funcs[f].blocks[b].insts[k],
        v,
    ) by {
        assert(v.funcs[f].blocks[b].insts[k] == u.funcs[f].blocks[b].insts[k]);
        lemma_covers_inst(u.funcs[f].blocks[b].insts[k], u, v);
    }
}

impl Unit {
    /// The unit of the empty program.
    pub fn new() -> (unit: Unit)
        ensures
            unit@ == empty_unit(),
            unit_wf(unit@),
    {
        let mut blocks: Vec<Block> = Vec::new();
        blocks.push(Block { label: Label::Entry, insts: Vec::new() });
        let mut funcs: Vec<Function> = Vec::new();
        funcs.push(Function { name: FuncName::Main, blocks });
        let unit = Unit { funcs };
        assert(unit@ =~~= empty_unit());
        unit
    }

    /// Adds `inst` at the end of block `at`.
    pub fn push_inst(&mut self, at: BlockId, inst: Inst)
        requires
            has_block(old(self)@, at),
        ensures
            final(self)@ == with_inst(old(self)@, at, inst),
    {
        self.funcs[at.func].blocks[at.index].insts.push(inst);
        assert(self@ =~~= with_inst(old(self)@, at, inst));
    }

    /// Adds an empty block at the end of function `func` and returns its place.
    pub fn push_block(&mut self, func: usize, label: Label) -> (id: BlockId)
        requires
            func < old(self)@.funcs.len(),
        ensures
            final(self)@ == with_block(old(self)@, func, label),
            id == (BlockId { func, index: old(self)@.funcs[func as int].blocks.len() as usize }),
            old(self)@.funcs[func as int].blocks.len() <= usize::MAX,
    {
        let index = self.funcs[func].blocks.len();
        self.funcs[func].blocks.push(Block { label, insts: Vec::new() });
        assert(self@ =~~= with_block(old(self)@, func, label));
        BlockId { func, index }
    }

    /// Adds a function with an empty entry block and returns the function's number.
    pub fn push_function(&mut self, name: FuncName) -> (id: usize)
        ensures
            final(self)@ == with_function(old(self)@, name),
            id == old(self)@.funcs.len(),
    {
        let id = self.funcs.len();
        let mut blocks: Vec<Block> = Vec::new();
        blocks.push(Block { label: Label::Entry, insts: Vec::new() });
        self.funcs.push(Function { name, blocks });
        assert(self@ =~~= with_function(old(self)@, name));
        id
    }

    fn has_block(&self, id: BlockId) -> (has: bool)
        ensures
            has == has_block(self@, id),
    {
        id.func < self.funcs.len() && id.index < self.funcs[id.func].blocks.len()
    }

    fn inst_is_ok(&self, inst: Inst) -> (ok: bool)
        ensures
            ok == inst_ok(inst, self@),
    {
        match inst {
            Inst::MovePointer { slot, .. } => slot < self.funcs.len(),
            Inst::ChangeCell { slot, .. } => slot < self.funcs.len(),
            Inst::Output { slot } => slot < self.funcs.len(),
            Inst::Input { slot } => slot < self.funcs.len(),
            Inst::Jump { target } => self.has_block(target),
            Inst::Branch { slot, if_nonzero, if_zero } => slot < self.funcs.len() && self.has_block(
                if_nonzero,
            ) && self.has_block(if_zero),
            Inst::Call { callee, slot } => {
                if callee < self.funcs.len() && slot < self.funcs.len() {
                    match self.funcs[callee].name {
                        FuncName::Main => false,
                        FuncName::Proc(_) => true,
                    }
                } else {
                    false
                }
            },
            Inst::ReturnVoid => true,
            Inst::ReturnZero => true,
        }
    }

    fn block_is_ok(&self, f: usize, b: usize) -> (ok: bool)
        requires
            f < self@.funcs.len(),
            b < self@.funcs[f as int].blocks.len(),
        ensures
            ok == block_ok(self@, f as int, b as int),
    {
        let insts = &self.funcs[f].blocks[b].insts;
        let mut k: usize = 0;
        while k < insts.len()
            invariant
                k <= insts.len(),
                insts@ == self@.funcs[f as int].blocks[b as int].insts,
                forall|i: int| 0 <= i < k ==> inst_ok(#[trigger] insts@[i], self@),
            decreases insts.len() - k,
        {
            if !self.inst_is_ok(insts[k]) {
                return false;
            }
            k += 1;
        }
        true
    }

    fn function_is_ok(&self, f: usize) -> (ok: bool)
        requires
            f < self@.funcs.len(),
        ensures
            ok == function_ok(self@, f as int),
    {
        let n = self.funcs[f].blocks.len();
        if n == 0 {
            return false;
        }
        let mut b: usize = 0;
        while b < n
            invariant
                b <= n,
                f < self@.funcs.len(),
                n == self@.funcs[f as int].blocks.len(),
                forall|i: int| 0 <= i < b ==> #[trigger] block_ok(self@, f as int, i),
            decreases n - b,
        {
            if !self.block_is_ok(f, b) {
                return false;
            }
            b += 1;
        }
        true
    }

    /// Whether the unit is sound.
    pub fn is_sound(&self) -> (sound: bool)
        ensures
            sound == unit_wf(self@),
    {
        proof {
            lemma_unit_wf_by_function(self@);
        }
        if self.funcs.len() == 0 {
            return false;
        }
        match self.funcs[0].name {
            FuncName::Main => {},
            FuncName::Proc(_) => {
                return false;
            },
        }
        let mut f: usize = 0;
        while f < self.funcs.len()
            invariant
                f <= self.funcs.len(),
                forall|i: int| 0 <= i < f ==> #[trigger] function_ok(self@, i),
            decreases self.funcs.len() - f,
        {
            if !self.function_is_ok(f) {
                return false;
            }
            f += 1;
        }
        true
    }

    /// The place of the last block of function `func`.
    pub fn last_block(&self, func: usize) -> (id: BlockId)
        requires
            unit_wf(self@),
            func < self@.funcs.len(),
        ensures
            id == (BlockId { func, index: (self@.funcs[func as int].blocks.len() - 1) as usize }),
            has_block(self@, id),
    {
        assert(self@.funcs[func as int].blocks.len() >= 1);
        BlockId { func, index: self.funcs[func].blocks.len() - 1 }
    }
}

} // verus!
