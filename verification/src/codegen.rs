use crate::ir::{
    covers, empty_unit, has_block, inst_ok, lemma_with_block_wf, lemma_with_function_wf,
    lemma_with_inst_wf, unit_wf, with_block, with_function, with_inst, BlockId, FuncName, Inst,
    Label, Unit, UnitView, MAIN,
};
use crate::op::Op;
use std::collections::{HashMap, VecDeque};
use vstd::prelude::*;

verus! {

broadcast use vstd::std_specs::hash::group_hash_axioms;

/// What the generator knows of a procedure that the program has named.
#[derive(Clone, Copy, Debug, PartialEq, Eq, Structural)]
pub struct ProcEntry {
    /// The number of the procedure's function.
    pub func: usize,
    /// Whether the definition is closed, so that the procedure can be called.
    pub ready: bool,
}

/// The state of a procedure name.
pub enum ProcState {
    /// The program has not named it yet.
    Unseen,
    /// Its definition is open; the function has this number.
    Defining(usize),
    /// Its definition is closed; the function has this number.
    Ready(usize),
}

/// The generator's state.
#[verifier::ext_equal]
pub struct GenState {
    /// The program built so far.
    pub unit: UnitView,
    /// The block that the next step goes to.
    pub cursor: BlockId,
    /// The storage cells in scope, the innermost last.
    pub scopes: Seq<usize>,
    /// The open loops, the innermost last: for each its condition block and the
    /// block that follows it.
    pub loops: Seq<(BlockId, BlockId)>,
    /// The procedures named so far, by their names.
    pub procs: Map<char, ProcEntry>,
    /// The instructions of the program.
    pub ast: Seq<Op>,
}

/// The state of the procedure name `ident`.
pub open spec fn proc_state(procs: Map<char, ProcEntry>, ident: char) -> ProcState {
    if !procs.contains_key(ident) {
        ProcState::Unseen
    } else if procs[ident].ready {
        ProcState::Ready(procs[ident].func)
    } else {
        ProcState::Defining(procs[ident].func)
    }
}

/// The names whose definitions are open.
pub open spec fn open_names(procs: Map<char, ProcEntry>) -> Set<char> {
    Set::new(|c: char| procs.contains_key(c) && !procs[c].ready)
}

/// How many definitions are open.
pub open spec fn open_count(procs: Map<char, ProcEntry>) -> nat {
    open_names(procs).len()
}

/// The state is sound: the unit is, every number in the state names a function or a
/// block of the unit, there is one scope for each open definition above the scope
/// of the program, which is the outermost, and the registry holds each name once,
/// with the function that bears the name.
pub open spec fn state_wf(g: GenState) -> bool {
    &&& unit_wf(g.unit)
    &&& g.unit.funcs.len() <= usize::MAX
    &&& has_block(g.unit, g.cursor)
    &&& g.scopes.len() == 1 + open_count(g.procs)
    &&& g.scopes[0] == MAIN
    &&& forall|i: int| 0 <= i < g.scopes.len() ==> #[trigger] g.scopes[i] < g.unit.funcs.len()
    &&& forall|i: int|
        0 <= i < g.loops.len() ==> has_block(g.unit, (#[trigger] g.loops[i]).0) && has_block(
            g.unit,
            g.loops[i].1,
        )
    &&& g.procs.dom().finite()
    &&& forall|c: char| #[trigger]
        g.procs.contains_key(c) ==> g.procs[c].func < g.unit.funcs.len()
            && g.unit.funcs[g.procs[c].func as int].name == FuncName::Proc(c)
}

/// The state before the first instruction: the empty program, with the cursor in
/// its entry block and the program's own storage cell in scope.
pub open spec fn initial_state(ast: Seq<Op>) -> GenState {
    GenState {
        unit: empty_unit(),
        cursor: BlockId { func: MAIN, index: 0 },
        scopes: seq![MAIN],
        loops: Seq::empty(),
        procs: Map::empty(),
        ast,
    }
}

/// `g` with `inst` added where the cursor stands.
pub open spec fn emit_at_cursor(g: GenState, inst: Inst) -> GenState {
    GenState { unit: with_inst(g.unit, g.cursor, inst), ..g }
}

/// A run of `>` or `<`: the position in the innermost scope moves by `count`.
pub open spec fn after_ptr_manipulate(g: GenState, count: usize, dec: bool) -> GenState {
    emit_at_cursor(g, Inst::MovePointer { slot: g.scopes.last(), back: dec, count: count as u64 })
}

/// A run of `+` or `-`: the cell changes by `count`, taken as a byte.
pub open spec fn after_val_manipulate(g: GenState, count: usize, dec: bool) -> GenState {
    emit_at_cursor(
        g,
        Inst::ChangeCell { slot: g.scopes.last(), down: dec, amount: (count % 256) as u8 },
    )
}

/// `.`: the cell is written.
pub open spec fn after_out(g: GenState) -> GenState {
    emit_at_cursor(g, Inst::Output { slot: g.scopes.last() })
}

/// `,`: a byte is read into the cell.
pub open spec fn after_input(g: GenState) -> GenState {
    emit_at_cursor(g, Inst::Input { slot: g.scopes.last() })
}

/// `[`: the cursor's function gets a condition block, a body block and an end
/// block, in that order. The cursor's block jumps to the condition block, which
/// goes on in the body if the cell is not zero and at the end block if it is. The
/// loop is pushed and the cursor moves to the body.
pub open spec fn after_loop_start(g: GenState) -> GenState {
    let func = g.cursor.func;
    let n = g.unit.funcs[func as int].blocks.len();
    let cond = BlockId { func, index: n as usize };
    let body = BlockId { func, index: (n + 1) as usize };
    let end = BlockId { func, index: (n + 2) as usize };
    let u1 = with_block(
        with_block(with_block(g.unit, func, Label::Cond), func, Label::Body),
        func,
        Label::End,
    );
    let u2 = with_inst(u1, g.cursor, Inst::Jump { target: cond });
    let u3 = with_inst(
        u2,
        cond,
        Inst::Branch { slot: g.scopes.last(), if_nonzero: body, if_zero: end },
    );
    GenState { unit: u3, cursor: body, loops: g.loops.push((cond, end)), ..g }
}

/// `]`: the cursor's block jumps back to the condition block of the innermost
/// loop, the loop is popped and the cursor moves to the loop's end block.
pub open spec fn after_loop_end(g: GenState) -> GenState {
    let (cond, end) = g.loops.last();
    GenState {
        unit: with_inst(g.unit, g.cursor, Inst::Jump { target: cond }),
        cursor: end,
        loops: g.loops.drop_last(),
        ..g
    }
}

/// A procedure name. At its first mention a function is made for it, the cursor
/// moves to that function's entry block and the function's storage cell comes
/// into scope. At its second mention the cursor's block returns, the innermost
/// scope is dropped and the cursor moves to the last block of `Main`. From then on
/// each mention calls the function with the position in the innermost scope.
pub open spec fn after_proc(g: GenState, ident: char) -> GenState {
    if !g.procs.contains_key(ident) {
        let func = g.unit.funcs.len() as usize;
        GenState {
            unit: with_function(g.unit, FuncName::Proc(ident)),
            cursor: BlockId { func, index: 0 },
            scopes: g.scopes.push(func),
            procs: g.procs.insert(ident, ProcEntry { func, ready: false }),
            ..g
        }
    } else if !g.procs[ident].ready {
        GenState {
            unit: with_inst(g.unit, g.cursor, Inst::ReturnVoid),
            cursor: BlockId {
                func: MAIN,
                index: (g.unit.funcs[MAIN as int].blocks.len() - 1) as usize,
            },
            scopes: g.scopes.drop_last(),
            procs: g.procs.insert(ident, ProcEntry { ready: true, ..g.procs[ident] }),
            ..g
        }
    } else {
        emit_at_cursor(g, Inst::Call { callee: g.procs[ident].func, slot: g.scopes.last() })
    }
}

/// The state after one instruction.
pub open spec fn after_op(g: GenState, op: Op) -> GenState {
    match op {
        Op::PointerInc(n) => after_ptr_manipulate(g, n, false),
        Op::PointerDec(n) => after_ptr_manipulate(g, n, true),
        Op::ValueInc(n) => after_val_manipulate(g, n, false),
        Op::ValueDec(n) => after_val_manipulate(g, n, true),
        Op::Output => after_out(g),
        Op::Input => after_input(g),
        Op::LLoop => after_loop_start(g),
        Op::RLoop => after_loop_end(g),
        Op::Proc(ident) => after_proc(g, ident),
    }
}

/// The state after the instructions `ops`, taken in order.
pub open spec fn after_ops(g: GenState, ops: Seq<Op>) -> GenState
    decreases ops.len(),
{
    if ops.len() == 0 {
        g
    } else {
        after_op(after_ops(g, ops.drop_last()), ops.last())
    }
}

/// The state after the whole program: all its instructions, then the return of the
/// byte zero where the cursor stands.
pub open spec fn after_run(g: GenState) -> GenState {
    emit_at_cursor(after_ops(g, g.ast), Inst::ReturnZero)
}

/// The loop depth after `op`, or `None` if `op` closes a loop where none is open.
pub open spec fn depth_step(depth: Option<nat>, op: Op) -> Option<nat> {
    match depth {
        None => None,
        Some(d) => match op {
            Op::LLoop => Some(d + 1),
            Op::RLoop => if d == 0 {
                None
            } else {
                Some((d - 1) as nat)
            },
            _ => Some(d),
        },
    }
}

/// The loop depth after `ops`, starting from `depth`, or `None` if one of them
/// closes a loop where none is open.
pub open spec fn scan_depth(ops: Seq<Op>, depth: nat) -> Option<nat>
    decreases ops.len(),
{
    if ops.len() == 0 {
        Some(depth)
    } else {
        depth_step(scan_depth(ops.drop_last(), depth), ops.last())
    }
}

/// Every `]` closes a loop that is open, and no loop stays open.
pub open spec fn well_nested(ops: Seq<Op>) -> bool {
    scan_depth(ops, 0) == Some(0nat)
}

/// How often `op` occurs in `ops`.
pub open spec fn count_op(ops: Seq<Op>, op: Op) -> nat
    decreases ops.len(),
{
    if ops.len() == 0 {
        0
    } else {
        count_op(ops.drop_last(), op) + if ops.last() == op {
            1nat
        } else {
            0nat
        }
    }
}

/// A name that is new and whose definition is open counts as one more.
pub proof fn lemma_open_count_opened(procs: Map<char, ProcEntry>, ident: char, entry: ProcEntry)
    requires
        procs.dom().finite(),
        !procs.contains_key(ident),
        !entry.ready,
    ensures
        procs.insert(ident, entry).dom().finite(),
        open_count(procs.insert(ident, entry)) == open_count(procs) + 1,
{
    vstd::set_lib::lemma_len_subset(open_names(procs), procs.dom());
    assert(open_names(procs.insert(ident, entry)) =~= open_names(procs).insert(ident));
}

/// A name whose definition closes counts no longer.
pub proof fn lemma_open_count_closed(procs: Map<char, ProcEntry>, ident: char)
    requires
        procs.dom().finite(),
        procs.contains_key(ident),
        !procs[ident].ready,
    ensures
        procs.insert(ident, ProcEntry { ready: true, ..procs[ident] }).dom().finite(),
        open_count(procs) >= 1,
        open_count(procs.insert(ident, ProcEntry { ready: true, ..procs[ident] })) == open_count(
            procs,
        ) - 1,
{
    let closed = procs.insert(ident, ProcEntry { ready: true, ..procs[ident] });
    vstd::set_lib::lemma_len_subset(open_names(procs), procs.dom());
    assert(open_names(procs).contains(ident));
    assert(open_names(closed) =~= open_names(procs).remove(ident));
}

/// Two characters with one code are one character.
pub proof fn lemma_char_code(c: char, d: char)
    ensures
        (c as u32 == d as u32) <==> c == d,
{
}

/// The state before the first instruction is sound.
pub proof fn lemma_initial_state_wf(ast: Seq<Op>)
    ensures
        state_wf(initial_state(ast)),
{
    assert(open_names(Map::<char, ProcEntry>::empty()) =~= Set::<char>::empty());
}

/// One more sound step keeps a sound state sound.
pub proof fn lemma_emit_wf(g: GenState, inst: Inst)
    requires
        state_wf(g),
        inst_ok(inst, g.unit),
    ensures
        state_wf(emit_at_cursor(g, inst)),
{
    lemma_with_inst_wf(g.unit, g.cursor, inst);
    lemma_covered_state(g, emit_at_cursor(g, inst));
}

/// What names a block or a function in `g` still does so in a state that differs
/// from `g` only by a unit with more in it.
proof fn lemma_covered_state(g: GenState, h: GenState)
    requires
        state_wf(g),
        covers(g.unit, h.unit),
        unit_wf(h.unit),
        h.unit.funcs.len() <= usize::MAX,
        h.scopes == g.scopes,
        h.loops == g.loops,
        h.procs == g.procs,
        h.cursor == g.cursor,
    ensures
        state_wf(h),
{
    assert(g.unit.funcs[g.cursor.func as int].blocks.len()
        <= h.unit.funcs[g.cursor.func as int].blocks.len());
    assert forall|i: int| 0 <= i < h.loops.len() implies has_block(
        h.unit,
        (#[trigger] h.loops[i]).0,
    ) && has_block(h.unit, h.loops[i].1) by {
        lemma_covers_block(g.unit, h.unit, g.loops[i].0);
        lemma_covers_block(g.unit, h.unit, g.loops[i].1);
    }
    assert forall|c: char| #[trigger] h.procs.contains_key(c) implies h.procs[c].func
        < h.unit.funcs.len() && h.unit.funcs[h.procs[c].func as int].name == FuncName::Proc(
        c,
    ) by {
        assert(g.unit.funcs[g.procs[c].func as int].name
            == h.unit.funcs[g.procs[c].func as int].name);
    }
}

proof fn lemma_covers_block(u: UnitView, v: UnitView, id: BlockId)
    requires
        covers(u, v),
        has_block(u, id),
    ensures
        has_block(v, id),
{
    assert(u.funcs[id.func as int].blocks.len() <= v.funcs[id.func as int].blocks.len());
}

proof fn lemma_covers_trans(u: UnitView, v: UnitView, w: UnitView)
    requires
        covers(u, v),
        covers(v, w),
    ensures
        covers(u, w),
{
    assert forall|f: int| 0 <= f < u.funcs.len() implies u.funcs[f].blocks.len() <= (
    #[trigger] w.funcs[f]).blocks.len() && u.funcs[f].name == w.funcs[f].name by {
        assert(u.funcs[f].blocks.len() <= v.funcs[f].blocks.len());
        assert(v.funcs[f].blocks.len() <= w.funcs[f].blocks.len());
        assert(u.funcs[f].name == v.funcs[f].name);
    }
}

/// `[` keeps a sound state sound.
pub proof fn lemma_after_loop_start_wf(g: GenState)
    requires
        state_wf(g),
    ensures
        state_wf(after_loop_start(g)),
{
    let func = g.cursor.func;
    let n = g.unit.funcs[func as int].blocks.len();
    let cond = BlockId { func, index: n as usize };
    let body = BlockId { func, index: (n + 1) as usize };
    let end = BlockId { func, index: (n + 2) as usize };
    let a = with_block(g.unit, func, Label::Cond);
    let b = with_block(a, func, Label::Body);
    let u1 = with_block(b, func, Label::End);
    let jump = Inst::Jump { target: cond };
    let branch = Inst::Branch { slot: g.scopes.last(), if_nonzero: body, if_zero: end };
    let u2 = with_inst(u1, g.cursor, jump);
    let u3 = with_inst(u2, cond, branch);
    lemma_with_block_wf(g.unit, func, Label::Cond);
    lemma_with_block_wf(a, func, Label::Body);
    lemma_with_block_wf(b, func, Label::End);
    lemma_covers_trans(g.unit, a, b);
    lemma_covers_trans(g.unit, b, u1);
    lemma_covers_block(g.unit, u1, g.cursor);
    lemma_with_inst_wf(u1, g.cursor, jump);
    assert(g.scopes.last() == g.scopes[g.scopes.len() - 1]);
    lemma_with_inst_wf(u2, cond, branch);
    lemma_covers_trans(g.unit, u1, u2);
    lemma_covers_trans(g.unit, u2, u3);
    let h = after_loop_start(g);
    lemma_covered_state(g, GenState { unit: u3, ..g });
    assert forall|i: int| 0 <= i < h.loops.len() implies has_block(
        h.unit,
        (#[trigger] h.loops[i]).0,
    ) && has_block(h.unit, h.loops[i].1) by {
        if i < g.loops.len() {
            assert(h.loops[i] == g.loops[i]);
            lemma_covers_block(g.unit, u3, g.loops[i].0);
            lemma_covers_block(g.unit, u3, g.loops[i].1);
        }
    }
}

/// `]` keeps a sound state sound where a loop is open.
pub proof fn lemma_after_loop_end_wf(g: GenState)
    requires
        state_wf(g),
        g.loops.len() > 0,
    ensures
        state_wf(after_loop_end(g)),
{
    let (cond, end) = g.loops.last();
    assert(g.loops.last() == g.loops[g.loops.len() - 1]);
    let jump = Inst::Jump { target: cond };
    lemma_emit_wf(g, jump);
    let m = emit_at_cursor(g, jump);
    let h = after_loop_end(g);
    assert(has_block(m.unit, m.loops[g.loops.len() - 1].1));
    assert forall|i: int| 0 <= i < h.loops.len() implies has_block(
        h.unit,
        (#[trigger] h.loops[i]).0,
    ) && has_block(h.unit, h.loops[i].1) by {
        assert(h.loops[i] == m.loops[i]);
    }
}

/// A procedure name keeps a sound state sound, as long as the number of a new
/// function fits the machine.
pub proof fn lemma_after_proc_wf(g: GenState, ident: char)
    requires
        state_wf(g),
        !g.procs.contains_key(ident) ==> g.unit.funcs.len() < usize::MAX,
    ensures
        state_wf(after_proc(g, ident)),
{
    let h = after_proc(g, ident);
    if !g.procs.contains_key(ident) {
        let func = g.unit.funcs.len() as usize;
        lemma_with_function_wf(g.unit, FuncName::Proc(ident));
        lemma_open_count_opened(g.procs, ident, ProcEntry { func, ready: false });
        lemma_covered_state(g, GenState { unit: h.unit, ..g });
        assert forall|i: int| 0 <= i < h.scopes.len() implies #[trigger] h.scopes[i]
            < h.unit.funcs.len() by {
            if i < g.scopes.len() {
                assert(h.scopes[i] == g.scopes[i]);
            }
        }
        assert forall|c: char| #[trigger] h.procs.contains_key(c) implies h.procs[c].func
            < h.unit.funcs.len() && h.unit.funcs[h.procs[c].func as int].name == FuncName::Proc(
            c,
        ) by {
            if c != ident {
                assert(g.procs.contains_key(c));
                assert(g.unit.funcs[g.procs[c].func as int].name
                    == h.unit.funcs[g.procs[c].func as int].name);
            }
        }
    } else if !g.procs[ident].ready {
        lemma_emit_wf(g, Inst::ReturnVoid);
        let m = emit_at_cursor(g, Inst::ReturnVoid);
        lemma_open_count_closed(g.procs, ident);
        assert(g.unit.funcs[MAIN as int].blocks.len() >= 1);
        assert(g.unit.funcs[MAIN as int].blocks.len()
            <= m.unit.funcs[MAIN as int].blocks.len());
        assert forall|k: int| 0 <= k < h.scopes.len() implies #[trigger] h.scopes[k]
            < h.unit.funcs.len() by {
            assert(h.scopes[k] == g.scopes[k]);
        }
        assert forall|c: char| #[trigger] h.procs.contains_key(c) implies h.procs[c].func
            < h.unit.funcs.len() && h.unit.funcs[h.procs[c].func as int].name == FuncName::Proc(
            c,
        ) by {
            assert(m.procs.contains_key(c));
            assert(h.procs[c].func == m.procs[c].func);
        }
        assert forall|k: int| 0 <= k < h.loops.len() implies has_block(
            h.unit,
            (#[trigger] h.loops[k]).0,
        ) && has_block(h.unit, h.loops[k].1) by {
            assert(h.loops[k] == m.loops[k]);
        }
    } else {
        assert(g.scopes.last() == g.scopes[g.scopes.len() - 1]);
        lemma_emit_wf(g, Inst::Call { callee: g.procs[ident].func, slot: g.scopes.last() });
    }
}

/// Every instruction keeps a sound state sound, but for a `]` where no loop is
/// open, as long as the numbers of the functions fit the machine.
pub proof fn lemma_after_op_wf(g: GenState, op: Op)
    requires
        state_wf(g),
        op == Op::RLoop ==> g.loops.len() > 0,
        g.unit.funcs.len() < usize::MAX,
    ensures
        state_wf(after_op(g, op)),
{
    assert(g.scopes.last() == g.scopes[g.scopes.len() - 1]);
    match op {
        Op::PointerInc(n) => lemma_emit_wf(
            g,
            Inst::MovePointer { slot: g.scopes.last(), back: false, count: n as u64 },
        ),
        Op::PointerDec(n) => lemma_emit_wf(
            g,
            Inst::MovePointer { slot: g.scopes.last(), back: true, count: n as u64 },
        ),
        Op::ValueInc(n) => lemma_emit_wf(
            g,
            Inst::ChangeCell { slot: g.scopes.last(), down: false, amount: (n % 256) as u8 },
        ),
        Op::ValueDec(n) => lemma_emit_wf(
            g,
            Inst::ChangeCell { slot: g.scopes.last(), down: true, amount: (n % 256) as u8 },
        ),
        Op::Output => lemma_emit_wf(g, Inst::Output { slot: g.scopes.last() }),
        Op::Input => lemma_emit_wf(g, Inst::Input { slot: g.scopes.last() }),
        Op::LLoop => lemma_after_loop_start_wf(g),
        Op::RLoop => lemma_after_loop_end_wf(g),
        Op::Proc(ident) => lemma_after_proc_wf(g, ident),
    }
}

/// Why the generator did not take a program.
#[derive(Clone, Copy, Debug, PartialEq, Eq, Structural)]
pub enum GenError {
    /// Instruction number `at` is a `]` that stands where no loop is open.
    UnmatchedLoopEnd { at: usize },
}

/// The code generator: it walks the instructions once and builds the unit, keeping
/// the open loops, the scopes and the procedures named so far.
pub struct CodeGen {
    unit: Unit,
    cursor: BlockId,
    ptr: VecDeque<usize>,
    loops: VecDeque<(BlockId, BlockId)>,
    ast: Vec<Op>,
    procs: HashMap<u32, ProcEntry>,
}

impl View for CodeGen {
    type V = GenState;

    closed spec fn view(&self) -> GenState {
        GenState {
            unit: self.unit@,
            cursor: self.cursor,
            scopes: self.ptr@,
            loops: self.loops@,
            procs: Map::new(
                |c: char| self.procs@.contains_key(c as u32),
                |c: char| self.procs@[c as u32],
            ),
            ast: self.ast@,
        }
    }
}

impl CodeGen {
    /// The generator's state is sound.
    pub open spec fn wf(&self) -> bool {
        state_wf(self@)
    }

    /// A generator for `ast`, in the state before the first instruction.
    pub fn new(ast: Vec<Op>) -> (generator: CodeGen)
        ensures
            generator@ == initial_state(ast@),
            generator.wf(),
    {
        let unit = Unit::new();
        let mut ptr: VecDeque<usize> = VecDeque::new();
        ptr.push_back(MAIN);
        let generator = CodeGen {
            unit,
            cursor: BlockId { func: MAIN, index: 0 },
            ptr,
            loops: VecDeque::new(),
            ast,
            procs: HashMap::new(),
        };
        proof {
            assert(generator@.procs =~= Map::<char, ProcEntry>::empty());
            assert(generator@ =~~= initial_state(ast@));
            lemma_initial_state_wf(ast@);
        }
        generator
    }

    /// The unit built so far.
    pub fn unit(&self) -> (unit: &Unit)
        ensures
            unit@ == self@.unit,
    {
        &self.unit
    }

    /// Gives the unit up.
    pub fn into_unit(self) -> (unit: Unit)
        ensures
            unit@ == self@.unit,
    {
        self.unit
    }

    /// The block that the next step goes to.
    pub fn cursor(&self) -> (cursor: BlockId)
        ensures
            cursor == self@.cursor,
    {
        self.cursor
    }

    /// How many loops are open.
    pub fn loop_depth(&self) -> (depth: usize)
        ensures
            depth == self@.loops.len(),
    {
        self.loops.len()
    }

    /// How many storage cells are in scope.
    pub fn scope_depth(&self) -> (depth: usize)
        ensures
            depth == self@.scopes.len(),
    {
        self.ptr.len()
    }

    /// What the generator knows of the procedure name `ident`, if the program has
    /// named it.
    pub fn proc_entry(&self, ident: char) -> (found: Option<ProcEntry>)
        ensures
            found == if self@.procs.contains_key(ident) {
                Some(self@.procs[ident])
            } else {
                None
            },
    {
        match self.procs.get(&(ident as u32)) {
            Some(entry) => Some(*entry),
            None => None,
        }
    }

    fn top(&self) -> (slot: usize)
        requires
            self.wf(),
        ensures
            slot == self@.scopes.last(),
            slot < self@.unit.funcs.len(),
    {
        self.ptr[self.ptr.len() - 1]
    }

    fn emit(&mut self, inst: Inst)
        requires
            old(self).wf(),
            inst_ok(inst, old(self)@.unit),
        ensures
            final(self).wf(),
            final(self)@ == emit_at_cursor(old(self)@, inst),
    {
        self.unit.push_inst(self.cursor, inst);
        proof {
            lemma_emit_wf(old(self)@, inst);
        }
    }

    /// Takes a run of `count` copies of `>`, or of `<` if `dec`.
    pub fn ptr_manipulate(&mut self, count: usize, dec: bool)
        requires
            old(self).wf(),
        ensures
            final(self).wf(),
            final(self)@ == after_ptr_manipulate(old(self)@, count, dec),
    {
        let slot = self.top();
        self.emit(Inst::MovePointer { slot, back: dec, count: count as u64 });
    }

    /// Takes a run of `count` copies of `+`, or of `-` if `dec`.
    pub fn val_manipulate(&mut self, count: usize, dec: bool)
        requires
            old(self).wf(),
        ensures
            final(self).wf(),
            final(self)@ == after_val_manipulate(old(self)@, count, dec),
    {
        let slot = self.top();
        self.emit(Inst::ChangeCell { slot, down: dec, amount: (count % 256) as u8 });
    }

    /// Takes `.`.
    pub fn out(&mut self)
        requires
            old(self).wf(),
        ensures
            final(self).wf(),
            final(self)@ == after_out(old(self)@),
    {
        let slot = self.top();
        self.emit(Inst::Output { slot });
    }

    /// Takes `,`.
    pub fn input(&mut self)
        requires
            old(self).wf(),
        ensures
            final(self).wf(),
            final(self)@ == after_input(old(self)@),
    {
        let slot = self.top();
        self.emit(Inst::Input { slot });
    }

    /// Takes `[`.
    pub fn loop_start(&mut self)
        requires
            old(self).wf(),
        ensures
            final(self).wf(),
            final(self)@ == after_loop_start(old(self)@),
    {
        let func = self.cursor.func;
        let slot = self.top();
        let cond = self.unit.push_block(func, Label::Cond);
        let body = self.unit.push_block(func, Label::Body);
        let end = self.unit.push_block(func, Label::End);
        self.unit.push_inst(self.cursor, Inst::Jump { target: cond });
        self.unit.push_inst(cond, Inst::Branch { slot, if_nonzero: body, if_zero: end });
        self.cursor = body;
        self.loops.push_back((cond, end));
        proof {
            assert(self@ =~~= after_loop_start(old(self)@));
            lemma_after_loop_start_wf(old(self)@);
        }
    }

    /// Takes `]`. A loop has to be open.
    pub fn loop_end(&mut self)
        requires
            old(self).wf(),
            old(self)@.loops.len() > 0,
        ensures
            final(self).wf(),
            final(self)@ == after_loop_end(old(self)@),
    {
        let (cond, end) = self.loops[self.loops.len() - 1];
        self.loops.pop_back();
        self.unit.push_inst(self.cursor, Inst::Jump { target: cond });
        self.cursor = end;
        proof {
            assert(self@ =~~= after_loop_end(old(self)@));
            lemma_after_loop_end_wf(old(self)@);
        }
    }

    /// Takes the procedure name `ident`: opens its definition, closes it, or calls
    /// the procedure.
    pub fn proc(&mut self, ident: char)
        requires
            old(self).wf(),
        ensures
            final(self).wf(),
            final(self)@ == after_proc(old(self)@, ident),
    {
        match self.proc_entry(ident) {
            None => {
                let func = self.unit.push_function(FuncName::Proc(ident));
                let count = self.unit.funcs.len();
                proof {
                    assert(self.unit@.funcs.len() == count);
                    assert(self.unit@.funcs.len() == old(self)@.unit.funcs.len() + 1);
                    lemma_after_proc_wf(old(self)@, ident);
                }
                self.cursor = BlockId { func, index: 0 };
                self.ptr.push_back(func);
                self.procs.insert(ident as u32, ProcEntry { func, ready: false });
                proof {
                    let entry = ProcEntry { func, ready: false };
                    assert(self.procs@ == old(self).procs@.insert(ident as u32, entry));
                    assert forall|c: char| #[trigger]
                        self@.procs.contains_key(c) <==> old(self)@.procs.insert(
                            ident,
                            entry,
                        ).contains_key(c) by {
                        lemma_char_code(c, ident);
                    }
                    assert(self@.procs =~= old(self)@.procs.insert(ident, entry));
                    assert(self@ =~~= after_proc(old(self)@, ident));
                }
            },
            Some(entry) => {
                proof {
                    lemma_after_proc_wf(old(self)@, ident);
                    if !entry.ready {
                        lemma_open_count_closed(old(self)@.procs, ident);
                    }
                }
                if !entry.ready {
                    self.emit(Inst::ReturnVoid);
                    self.ptr.pop_back();
                    self.cursor = self.unit.last_block(MAIN);
                    self.procs.insert(ident as u32, ProcEntry { ready: true, ..entry });
                    proof {
                        let closed = ProcEntry { ready: true, ..entry };
                        assert forall|c: char| #[trigger]
                            self@.procs.contains_key(c) <==> old(self)@.procs.insert(
                                ident,
                                closed,
                            ).contains_key(c) by {
                            lemma_char_code(c, ident);
                        }
                        assert(self@.procs =~= old(self)@.procs.insert(ident, closed));
                        assert(self@ =~~= after_proc(old(self)@, ident));
                    }
                } else {
                    let slot = self.top();
                    self.emit(Inst::Call { callee: entry.func, slot });
                }
            },
        }
    }

    /// Takes the whole program and ends it with the return of the byte zero. No
    /// `]` may stand where no loop is open.
    pub fn run(&mut self)
        requires
            old(self).wf(),
            scan_depth(old(self)@.ast, old(self)@.loops.len()) is Some,
        ensures
            final(self).wf(),
            final(self)@ == after_run(old(self)@),
    {
        let n = self.ast.len();
        let mut i: usize = 0;
        while i < n
            invariant
                i <= n,
                n == self@.ast.len(),
                self.wf(),
                self@.ast == old(self)@.ast,
                self@ == after_ops(old(self)@, old(self)@.ast.take(i as int)),
                scan_depth(old(self)@.ast, old(self)@.loops.len()) is Some,
                scan_depth(old(self)@.ast.take(i as int), old(self)@.loops.len()) == Some(
                    self@.loops.len(),
                ),
            decreases n - i,
        {
            let op = self.ast[i];
            proof {
                let ops = old(self)@.ast;
                assert(ops.take(i + 1).drop_last() =~= ops.take(i as int));
                assert(ops.take(i + 1).last() == op);
                lemma_scan_prefix(ops, old(self)@.loops.len(), i + 1);
            }
            match op {
                Op::PointerInc(v) => {
                    self.ptr_manipulate(v, false);
                },
                Op::PointerDec(v) => {
                    self.ptr_manipulate(v, true);
                },
                Op::ValueInc(v) => {
                    self.val_manipulate(v, false);
                },
                Op::ValueDec(v) => {
                    self.val_manipulate(v, true);
                },
                Op::Output => {
                    self.out();
                },
                Op::Input => {
                    self.input();
                },
                Op::LLoop => {
                    self.loop_start();
                },
                Op::RLoop => {
                    self.loop_end();
                },
                Op::Proc(ident) => {
                    self.proc(ident);
                },
            }
            i += 1;
        }
        proof {
            assert(old(self)@.ast.take(n as int) =~= old(self)@.ast);
        }
        self.emit(Inst::ReturnZero);
    }

    /// Takes the whole program if no `]` stands where no loop is open, and says
    /// where the first such `]` stands if one does; the generator then stays as it
    /// was.
    pub fn try_run(&mut self) -> (outcome: Result<(), GenError>)
        requires
            old(self).wf(),
        ensures
            final(self).wf(),
            match outcome {
                Ok(()) => scan_depth(old(self)@.ast, old(self)@.loops.len()) is Some
                    && final(self)@ == after_run(old(self)@),
                Err(GenError::UnmatchedLoopEnd { at }) => scan_depth(
                    old(self)@.ast,
                    old(self)@.loops.len(),
                ) is None && at < old(self)@.ast.len()
                    && old(self)@.ast[at as int] == Op::RLoop
                    && scan_depth(old(self)@.ast.take(at as int), old(self)@.loops.len())
                    == Some(0nat)
                    && final(self)@ == old(self)@,
            },
    {
        match unmatched_close_from(&self.ast, self.loops.len()) {
            Some(at) => Err(GenError::UnmatchedLoopEnd { at }),
            None => {
                self.run();
                Ok(())
            },
        }
    }
}

/// A scan that succeeds succeeds on every prefix.
pub proof fn lemma_scan_prefix(ops: Seq<Op>, depth: nat, k: int)
    requires
        0 <= k <= ops.len(),
        scan_depth(ops, depth) is Some,
    ensures
        scan_depth(ops.take(k), depth) is Some,
    decreases ops.len(),
{
    if k == ops.len() {
        assert(ops.take(k) =~= ops);
    } else {
        lemma_scan_prefix(ops.drop_last(), depth, k);
        assert(ops.drop_last().take(k) =~= ops.take(k));
    }
}

/// How far a procedure name has come: not seen, being defined, ready.
pub open spec fn state_rank(state: ProcState) -> nat {
    match state {
        ProcState::Unseen => 0,
        ProcState::Defining(_) => 1,
        ProcState::Ready(_) => 2,
    }
}

/// The function that a state names, if it names one.
pub open spec fn state_func(state: ProcState) -> Option<usize> {
    match state {
        ProcState::Unseen => None,
        ProcState::Defining(func) => Some(func),
        ProcState::Ready(func) => Some(func),
    }
}

/// The registry only moves forward. Whatever the next instruction is, a name
/// that was seen keeps its function, a name that is ready stays ready, and no
/// name goes back. A mention of the name itself moves it on by one state, from
/// not seen to being defined and from there to ready.
pub proof fn lemma_registry_advances(g: GenState, op: Op, ident: char)
    ensures
        state_rank(proc_state(after_op(g, op).procs, ident)) >= state_rank(
            proc_state(g.procs, ident),
        ),
        proc_state(g.procs, ident) !is Unseen ==> state_func(
            proc_state(after_op(g, op).procs, ident),
        ) == state_func(proc_state(g.procs, ident)),
        op == Op::Proc(ident) && proc_state(g.procs, ident) !is Ready ==> state_rank(
            proc_state(after_op(g, op).procs, ident),
        ) == state_rank(proc_state(g.procs, ident)) + 1,
        op != Op::Proc(ident) ==> proc_state(after_op(g, op).procs, ident) == proc_state(
            g.procs,
            ident,
        ),
{
}

/// A call changes neither stack, nor the cursor, nor the registry: it adds one
/// step where the cursor stands, which hands the position in the innermost scope
/// to the procedure's function.
pub proof fn lemma_call_keeps_stacks(g: GenState, ident: char)
    requires
        proc_state(g.procs, ident) is Ready,
    ensures
        after_proc(g, ident).scopes == g.scopes,
        after_proc(g, ident).loops == g.loops,
        after_proc(g, ident).cursor == g.cursor,
        after_proc(g, ident).procs == g.procs,
        after_proc(g, ident).unit == with_inst(
            g.unit,
            g.cursor,
            Inst::Call {
                callee: state_func(proc_state(g.procs, ident)).unwrap(),
                slot: g.scopes.last(),
            },
        ),
{
}

/// A definition has a scope of its own. The first mention of a name puts the
/// storage cell of the new function on top of the scopes that were there and
/// moves the cursor into that function, so that a pointer run in the body moves
/// the position of the procedure, not that of its caller; the second mention
/// takes that scope off again.
pub proof fn lemma_definition_scope(g: GenState, ident: char, count: usize, dec: bool)
    requires
        proc_state(g.procs, ident) is Unseen,
    ensures
        after_proc(g, ident).scopes == g.scopes.push(g.unit.funcs.len() as usize),
        after_proc(g, ident).cursor.func == after_proc(g, ident).scopes.last(),
        after_ptr_manipulate(after_proc(g, ident), count, dec).unit == with_inst(
            after_proc(g, ident).unit,
            BlockId { func: g.unit.funcs.len() as usize, index: 0 },
            Inst::MovePointer { slot: g.unit.funcs.len() as usize, back: dec, count: count as u64 },
        ),
        after_proc(after_proc(g, ident), ident).scopes == g.scopes,
{
    let h = after_proc(g, ident);
    assert(h.scopes.drop_last() =~= g.scopes);
}

proof fn lemma_depth_tracks(g: GenState, ops: Seq<Op>)
    requires
        scan_depth(ops, 0) is Some,
    ensures
        count_op(ops, Op::LLoop) == count_op(ops, Op::RLoop) + scan_depth(ops, 0).unwrap(),
        after_ops(g, ops).loops.len() == g.loops.len() + scan_depth(ops, 0).unwrap(),
        after_ops(g, ops).loops.take(g.loops.len() as int) == g.loops,
    decreases ops.len(),
{
    if ops.len() == 0 {
        assert(g.loops.take(g.loops.len() as int) =~= g.loops);
    } else {
        lemma_depth_tracks(g, ops.drop_last());
        let p = after_ops(g, ops.drop_last());
        let h = after_ops(g, ops);
        let n = g.loops.len() as int;
        match ops.last() {
            Op::LLoop => {
                assert(h.loops.take(n) =~= p.loops.take(n));
            },
            Op::RLoop => {
                assert(h.loops.take(n) =~= p.loops.take(n));
            },
            _ => {
                assert(h.loops == p.loops);
            },
        }
    }
}

/// Loop balance: a well-nested program has as many `[` as `]`, and after it the
/// generator's open loops are those that were open before it; after a whole run
/// that started with no loop open, none is open.
pub proof fn lemma_loop_balance(g: GenState, ops: Seq<Op>)
    requires
        well_nested(ops),
    ensures
        count_op(ops, Op::LLoop) == count_op(ops, Op::RLoop),
        after_ops(g, ops).loops == g.loops,
        after_run(initial_state(ops)).loops.len() == 0,
{
    lemma_depth_tracks(g, ops);
    let h = after_ops(g, ops);
    assert(h.loops.take(g.loops.len() as int) =~= h.loops);
    lemma_depth_tracks(initial_state(ops), ops);
}

proof fn lemma_scan_counts(ops: Seq<Op>, depth: nat)
    requires
        scan_depth(ops, depth) is Some,
    ensures
        depth + count_op(ops, Op::LLoop) == count_op(ops, Op::RLoop) + scan_depth(
            ops,
            depth,
        ).unwrap(),
    decreases ops.len(),
{
    if ops.len() > 0 {
        lemma_scan_counts(ops.drop_last(), depth);
    }
}

/// The first `k` instructions hold more `]` than `[`, counting `depth` loops that
/// are open at the start as `[`.
pub open spec fn overdrawn(ops: Seq<Op>, depth: nat, k: int) -> bool {
    count_op(ops.take(k), Op::RLoop) > depth + count_op(ops.take(k), Op::LLoop)
}

/// The scan fails exactly where some prefix of the program holds more `]` than
/// `[`: that is the program which `run` does not take and which `try_run` rejects.
pub proof fn lemma_scan_fails_where_overdrawn(ops: Seq<Op>, depth: nat)
    ensures
        scan_depth(ops, depth) is None <==> exists|k: int|
            0 <= k <= ops.len() && #[trigger] overdrawn(ops, depth, k),
    decreases ops.len(),
{
    if scan_depth(ops, depth) is Some {
        assert forall|k: int| 0 <= k <= ops.len() implies !#[trigger] overdrawn(ops, depth, k) by {
            lemma_scan_prefix(ops, depth, k);
            lemma_scan_counts(ops.take(k), depth);
        }
    } else {
        let front = ops.drop_last();
        if scan_depth(front, depth) is None {
            lemma_scan_fails_where_overdrawn(front, depth);
            let k = choose|k: int| 0 <= k <= front.len() && #[trigger] overdrawn(front, depth, k);
            assert(front.take(k) =~= ops.take(k));
            assert(overdrawn(ops, depth, k));
        } else {
            lemma_scan_counts(front, depth);
            assert(ops.take(ops.len() as int) =~= ops);
            assert(overdrawn(ops, depth, ops.len() as int));
        }
    }
}

/// A `]` that stands where no loop is open makes the scan of the whole program
/// fail, whatever follows it: `run` does not take such a program.
pub proof fn lemma_unmatched_close_rejected(ops: Seq<Op>, i: int)
    requires
        0 <= i < ops.len(),
        ops[i] == Op::RLoop,
        scan_depth(ops.take(i), 0) == Some(0nat),
    ensures
        scan_depth(ops, 0) is None,
{
    if scan_depth(ops, 0) is Some {
        lemma_scan_prefix(ops, 0, i + 1);
        assert(ops.take(i + 1).drop_last() =~= ops.take(i));
        assert(ops.take(i + 1).last() == ops[i]);
    }
}

fn unmatched_close_from(ops: &Vec<Op>, depth: usize) -> (found: Option<usize>)
    ensures
        match found {
            Some(i) => i < ops@.len() && ops@[i as int] == Op::RLoop && scan_depth(
                ops@.take(i as int),
                depth as nat,
            ) == Some(0nat) && scan_depth(ops@, depth as nat) is None,
            None => scan_depth(ops@, depth as nat) is Some,
        },
{
    let mut open: u128 = depth as u128;
    let mut i: usize = 0;
    assert(ops@.take(0) =~= Seq::<Op>::empty());
    while i < ops.len()
        invariant
            i <= ops.len(),
            open <= depth + i,
            scan_depth(ops@.take(i as int), depth as nat) == Some(open as nat),
        decreases ops.len() - i,
    {
        proof {
            assert(ops@.take(i + 1).drop_last() =~= ops@.take(i as int));
            assert(ops@.take(i + 1).last() == ops@[i as int]);
        }
        match ops[i] {
            Op::LLoop => {
                open += 1;
            },
            Op::RLoop => {
                if open == 0 {
                    proof {
                        if scan_depth(ops@, depth as nat) is Some {
                            lemma_scan_prefix(ops@, depth as nat, i + 1);
                        }
                    }
                    return Some(i);
                }
                open -= 1;
            },
            _ => {},
        }
        i += 1;
    }
    proof {
        assert(ops@.take(i as int) =~= ops@);
    }
    None
}

/// The index of the first `]` that closes a loop where none is open.
pub fn first_unmatched_close(ops: &Vec<Op>) -> (found: Option<usize>)
    ensures
        match found {
            Some(i) => i < ops@.len() && ops@[i as int] == Op::RLoop && scan_depth(
                ops@.take(i as int),
                0,
            ) == Some(0nat) && scan_depth(ops@, 0) is None,
            None => scan_depth(ops@, 0) is Some,
        },
{
    unmatched_close_from(ops, 0)
}

} // verus!
