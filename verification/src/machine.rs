use crate::ir::{BlockId, FuncName, Inst, Unit, UnitView, MAIN, TAPE_CELLS};
use vstd::prelude::*;

verus! {

/// The byte that a read gives once the input is used up.
pub const END_OF_INPUT: u8 = 255;

/// One activation of a function: where it stands, and the tape position in its
/// storage cell.
#[derive(Clone, Copy, Debug, PartialEq, Eq, Structural)]
pub struct Frame {
    pub func: usize,
    pub block: usize,
    /// The index of the next step in the block.
    pub next: usize,
    pub position: u64,
}

/// Whether the machine can go on.
#[derive(Clone, Copy, Debug, PartialEq, Eq, Structural)]
pub enum Status {
    Running,
    /// `Main` has returned.
    Finished,
    /// The unit asked for something that has no meaning: a cell off the tape, a
    /// storage cell or a block of another function, a step past the end of a
    /// block, a return of the wrong kind.
    Fault,
}

/// A machine that runs a unit: the tape, the activations with the innermost last,
/// the input and how much of it is read, and the output so far.
pub struct Machine {
    tape: Vec<u8>,
    frames: Vec<Frame>,
    input: Vec<u8>,
    consumed: usize,
    output: Vec<u8>,
    status: Status,
}

/// What a `Machine` holds.
#[verifier::ext_equal]
pub struct MachineView {
    pub tape: Seq<u8>,
    pub frames: Seq<Frame>,
    pub input: Seq<u8>,
    pub consumed: nat,
    pub output: Seq<u8>,
    pub status: Status,
}

/// The cell after `amount` is added to it, or subtracted if `down`: a byte, which
/// wraps.
pub open spec fn cell_after(value: u8, down: bool, amount: u8) -> u8 {
    if down {
        ((value - amount) % 256) as u8
    } else {
        ((value + amount) % 256) as u8
    }
}

/// The position after a move by `count` cells, backwards if `back`: an address of
/// 64 bits, which wraps.
pub open spec fn position_after(position: u64, back: bool, count: u64) -> u64 {
    if back {
        ((position - count) % 0x1_0000_0000_0000_0000) as u64
    } else {
        ((position + count) % 0x1_0000_0000_0000_0000) as u64
    }
}

/// The machine before the first step: a tape of zeros, `Main` at the start of its
/// first block with the position zero, nothing read and nothing written.
pub open spec fn initial_machine(input: Seq<u8>) -> MachineView {
    MachineView {
        tape: Seq::new(TAPE_CELLS as nat, |i: int| 0u8),
        frames: seq![Frame { func: MAIN, block: 0, next: 0, position: 0 }],
        input,
        consumed: 0,
        output: Seq::empty(),
        status: Status::Running,
    }
}

/// `m`, stopped by a fault.
pub open spec fn fault(m: MachineView) -> MachineView {
    MachineView { status: Status::Fault, ..m }
}

/// `m` with `frame` in place of its innermost activation.
pub open spec fn with_top(m: MachineView, frame: Frame) -> MachineView {
    MachineView { frames: m.frames.update(m.frames.len() - 1, frame), ..m }
}

/// `frame` one step further in its block.
pub open spec fn advanced(frame: Frame) -> Frame {
    Frame { next: (frame.next + 1) as usize, ..frame }
}

/// `m` with its innermost activation at the start of block `target`, if that is a
/// block of the same function.
pub open spec fn jump(u: UnitView, m: MachineView, target: BlockId) -> MachineView {
    let top = m.frames.last();
    if target.func != top.func || target.index >= u.funcs[top.func as int].blocks.len() {
        fault(m)
    } else {
        with_top(m, Frame { block: target.index, next: 0, ..top })
    }
}

/// The machine after the step `inst` of its innermost activation.
pub open spec fn execute(u: UnitView, m: MachineView, inst: Inst) -> MachineView {
    let top = m.frames.last();
    match inst {
        Inst::MovePointer { slot, back, count } => if slot != top.func {
            fault(m)
        } else {
            with_top(
                m,
                Frame { position: position_after(top.position, back, count), ..advanced(top) },
            )
        },
        Inst::ChangeCell { slot, down, amount } => if slot != top.func || top.position
            >= m.tape.len() {
            fault(m)
        } else {
            MachineView {
                tape: m.tape.update(
                    top.position as int,
                    cell_after(m.tape[top.position as int], down, amount),
                ),
                ..with_top(m, advanced(top))
            }
        },
        Inst::Output { slot } => if slot != top.func || top.position >= m.tape.len() {
            fault(m)
        } else {
            MachineView {
                output: m.output.push(m.tape[top.position as int]),
                ..with_top(m, advanced(top))
            }
        },
        Inst::Input { slot } => if slot != top.func || top.position >= m.tape.len() {
            fault(m)
        } else if m.consumed < m.input.len() {
            MachineView {
                tape: m.tape.update(top.position as int, m.input[m.consumed as int]),
                consumed: m.consumed + 1,
                ..with_top(m, advanced(top))
            }
        } else {
            MachineView {
                tape: m.tape.update(top.position as int, END_OF_INPUT),
                ..with_top(m, advanced(top))
            }
        },
        Inst::Jump { target } => jump(u, m, target),
        Inst::Branch { slot, if_nonzero, if_zero } => if slot != top.func || top.position
            >= m.tape.len() {
            fault(m)
        } else if m.tape[top.position as int] != 0 {
            jump(u, m, if_nonzero)
        } else {
            jump(u, m, if_zero)
        },
        Inst::Call { callee, slot } => if slot != top.func || callee >= u.funcs.len()
            || u.funcs[callee as int].name == FuncName::Main {
            fault(m)
        } else {
            MachineView {
                frames: m.frames.update(m.frames.len() - 1, advanced(top)).push(
                    Frame { func: callee, block: 0, next: 0, position: top.position },
                ),
                ..m
            }
        },
        Inst::ReturnVoid => if u.funcs[top.func as int].name == FuncName::Main || m.frames.len()
            < 2 {
            fault(m)
        } else {
            MachineView { frames: m.frames.drop_last(), ..m }
        },
        Inst::ReturnZero => if u.funcs[top.func as int].name != FuncName::Main || m.frames.len()
            != 1 {
            fault(m)
        } else {
            MachineView { status: Status::Finished, ..m }
        },
    }
}

/// The step that the innermost activation stands at, if there is one.
pub open spec fn fetch(u: UnitView, m: MachineView) -> Option<Inst> {
    if m.frames.len() == 0 {
        None
    } else {
        let top = m.frames.last();
        if top.func < u.funcs.len() && top.block < u.funcs[top.func as int].blocks.len() && top.next
            < u.funcs[top.func as int].blocks[top.block as int].insts.len() {
            Some(u.funcs[top.func as int].blocks[top.block as int].insts[top.next as int])
        } else {
            None
        }
    }
}

/// The machine one step later. A machine that does not run stays as it is.
pub open spec fn step(u: UnitView, m: MachineView) -> MachineView {
    if m.status != Status::Running {
        m
    } else {
        match fetch(u, m) {
            None => fault(m),
            Some(inst) => execute(u, m, inst),
        }
    }
}

/// The machine `n` steps later.
pub open spec fn steps(u: UnitView, m: MachineView, n: nat) -> MachineView
    decreases n,
{
    if n == 0 {
        m
    } else {
        steps(u, step(u, m), (n - 1) as nat)
    }
}

/// A cell after `times` changes by `amount`.
pub open spec fn cell_after_repeated(value: u8, down: bool, amount: u8, times: nat) -> u8
    decreases times,
{
    if times == 0 {
        value
    } else {
        cell_after_repeated(cell_after(value, down, amount), down, amount, (times - 1) as nat)
    }
}

proof fn lemma_cell_after_ones(value: u8, down: bool, times: nat)
    ensures
        cell_after_repeated(value, down, 1, times) == if down {
            ((value - times) % 256) as u8
        } else {
            ((value + times) % 256) as u8
        },
    decreases times,
{
    if times > 0 {
        lemma_cell_after_ones(cell_after(value, down, 1), down, (times - 1) as nat);
    }
}

/// Cell wraparound: 256 single increments bring a cell back to where it was, and
/// so do 256 single decrements; a run of `n` adds `n` modulo 256, so that a run of
/// 256 changes nothing.
pub proof fn lemma_cell_wraparound(value: u8, down: bool, n: usize)
    ensures
        cell_after_repeated(value, down, 1, 256) == value,
        cell_after(value, false, (n % 256) as u8) == (value + n) % 256,
        cell_after(value, true, (n % 256) as u8) == (value - n) % 256,
        cell_after(value, down, (256usize % 256) as u8) == value,
{
    lemma_cell_after_ones(value, down, 256);
    vstd::arithmetic::div_mod::lemma_add_mod_noop_right(value as int, n as int, 256);
    vstd::arithmetic::div_mod::lemma_sub_mod_noop_right(value as int, n as int, 256);
}

/// One step is `step`.
pub proof fn lemma_steps_one(u: UnitView, m: MachineView)
    ensures
        steps(u, m, 1) == step(u, m),
{
    reveal_with_fuel(steps, 2);
}

/// A machine that does not run stays as it is, however many steps it is given.
pub proof fn lemma_steps_halted(u: UnitView, m: MachineView, n: nat)
    requires
        m.status != Status::Running,
    ensures
        steps(u, m, n) == m,
    decreases n,
{
    if n > 0 {
        lemma_steps_halted(u, m, (n - 1) as nat);
    }
}

/// Steps add up.
pub proof fn lemma_steps_add(u: UnitView, m: MachineView, a: nat, b: nat)
    ensures
        steps(u, m, a + b) == steps(u, steps(u, m, a), b),
    decreases a,
{
    if a > 0 {
        lemma_steps_add(u, step(u, m), (a - 1) as nat, b);
    }
}

/// One step leaves every activation but the innermost as it was, unless the
/// innermost returns.
pub proof fn lemma_step_keeps_outer(u: UnitView, m: MachineView, depth: int)
    requires
        0 <= depth < m.frames.len(),
    ensures
        step(u, m).frames.len() >= depth,
        step(u, m).frames.take(depth) == m.frames.take(depth),
{
    let after = step(u, m);
    assert(after.frames.len() >= depth);
    assert(after.frames.take(depth) =~= m.frames.take(depth));
}

/// As long as more than `depth` activations are live, the outermost `depth` of
/// them stay as they were.
pub proof fn lemma_steps_keep_outer(u: UnitView, m: MachineView, depth: int, n: nat)
    requires
        0 <= depth <= m.frames.len(),
        forall|j: nat| j < n ==> (#[trigger] steps(u, m, j)).frames.len() > depth,
    ensures
        steps(u, m, n).frames.len() >= depth,
        steps(u, m, n).frames.take(depth) == m.frames.take(depth),
    decreases n,
{
    if n == 0 {
    } else {
        let k = (n - 1) as nat;
        assert forall|j: nat| j < k implies (#[trigger] steps(u, m, j)).frames.len() > depth by {}
        lemma_steps_keep_outer(u, m, depth, k);
        lemma_steps_add(u, m, k, 1);
        let before = steps(u, m, k);
        lemma_steps_one(u, before);
        lemma_step_keeps_outer(u, before, depth);
    }
}

/// Procedure scoping: if the first step from `m` is a call, and the callee is
/// live for the `n` steps after it and returns with the next one, then the caller
/// stands at the tape position at which it stood before the call.
pub proof fn lemma_procedure_scoping(u: UnitView, m: MachineView, n: nat)
    requires
        m.frames.len() >= 1,
        step(u, m).frames.len() == m.frames.len() + 1,
        forall|j: nat|
            1 <= j <= n + 1 ==> (#[trigger] steps(u, m, j)).frames.len() > m.frames.len(),
        steps(u, m, n + 2).frames.len() == m.frames.len(),
    ensures
        steps(u, m, n + 2).frames.last().position == m.frames.last().position,
{
    let depth = m.frames.len() as int;
    let called = step(u, m);
    assert(called.frames[depth - 1].position == m.frames[depth - 1].position);
    lemma_steps_add(u, m, 1, n + 1);
    lemma_steps_one(u, m);
    assert forall|j: nat| j < n + 1 implies (#[trigger] steps(u, called, j)).frames.len()
        > depth by {
        lemma_steps_add(u, m, 1, j);
        assert(steps(u, m, 1 + j).frames.len() > m.frames.len());
    }
    lemma_steps_keep_outer(u, called, depth, n + 1);
    let last = steps(u, called, n + 1);
    assert(last == steps(u, m, n + 2));
    assert(last.frames.take(depth)[depth - 1] == called.frames.take(depth)[depth - 1]);
}

impl View for Machine {
    type V = MachineView;

    closed spec fn view(&self) -> MachineView {
        MachineView {
            tape: self.tape@,
            frames: self.frames@,
            input: self.input@,
            consumed: self.consumed as nat,
            output: self.output@,
            status: self.status,
        }
    }
}

impl Machine {
    /// The machine has not read more than there is.
    pub open spec fn wf(&self) -> bool {
        self@.consumed <= self@.input.len()
    }

    /// A machine that is about to run `Main` on a tape of zeros, with `input` to
    /// read.
    pub fn new(input: Vec<u8>) -> (machine: Machine)
        ensures
            machine.wf(),
            machine@ == initial_machine(input@),
    {
        let mut tape: Vec<u8> = Vec::new();
        let mut i: u64 = 0;
        while i < TAPE_CELLS
            invariant
                i <= TAPE_CELLS,
                tape@ == Seq::new(i as nat, |j: int| 0u8),
            decreases TAPE_CELLS - i,
        {
            tape.push(0);
            i += 1;
            assert(tape@ =~= Seq::new(i as nat, |j: int| 0u8));
        }
        let mut frames: Vec<Frame> = Vec::new();
        frames.push(Frame { func: MAIN, block: 0, next: 0, position: 0 });
        let machine = Machine {
            tape,
            frames,
            input,
            consumed: 0,
            output: Vec::new(),
            status: Status::Running,
        };
        assert(machine@ =~= initial_machine(input@));
        machine
    }

    /// Whether the machine runs, has finished or has failed.
    pub fn status(&self) -> (status: Status)
        ensures
            status == self@.status,
    {
        self.status
    }

    /// The bytes written so far.
    pub fn output(&self) -> (output: &Vec<u8>)
        ensures
            output@ == self@.output,
    {
        &self.output
    }

    /// The tape.
    pub fn tape(&self) -> (tape: &Vec<u8>)
        ensures
            tape@ == self@.tape,
    {
        &self.tape
    }

    fn jump(&mut self, unit: &Unit, target: BlockId)
        requires
            old(self).wf(),
            old(self)@.frames.len() > 0,
            old(self)@.frames.last().func < unit@.funcs.len(),
        ensures
            final(self).wf(),
            final(self)@ == jump(unit@, old(self)@, target),
    {
        let depth = self.frames.len();
        let top = self.frames[depth - 1];
        if target.func != top.func || target.index >= unit.funcs[top.func].blocks.len() {
            self.status = Status::Fault;
        } else {
            self.frames.set(depth - 1, Frame { block: target.index, next: 0, ..top });
        }
        assert(self@ =~= jump(unit@, old(self)@, target));
    }

    /// Takes one step.
    pub fn step(&mut self, unit: &Unit)
        requires
            old(self).wf(),
        ensures
            final(self).wf(),
            final(self)@ == step(unit@, old(self)@),
    {
        match self.status {
            Status::Running => {},
            _ => {
                return ;
            },
        }
        let depth = self.frames.len();
        if depth == 0 {
            self.status = Status::Fault;
            assert(self@ =~= step(unit@, old(self)@));
            return ;
        }
        let top = self.frames[depth - 1];
        if top.func >= unit.funcs.len() || top.block >= unit.funcs[top.func].blocks.len()
            || top.next >= unit.funcs[top.func].blocks[top.block].insts.len() {
            self.status = Status::Fault;
            assert(self@ =~= step(unit@, old(self)@));
            return ;
        }
        let inst = unit.funcs[top.func].blocks[top.block].insts[top.next];
        assert(fetch(unit@, self@) == Some(inst));
        let onward = Frame { next: top.next + 1, ..top };
        match inst {
            Inst::MovePointer { slot, back, count } => {
                if slot != top.func {
                    self.status = Status::Fault;
                } else {
                    let position = if back {
                        top.position.wrapping_sub(count)
                    } else {
                        top.position.wrapping_add(count)
                    };
                    self.frames.set(depth - 1, Frame { position, ..onward });
                }
            },
            Inst::ChangeCell { slot, down, amount } => {
                if slot != top.func || top.position >= self.tape.len() as u64 {
                    self.status = Status::Fault;
                } else {
                    let at = top.position as usize;
                    let value = self.tape[at];
                    let changed = if down {
                        value.wrapping_sub(amount)
                    } else {
                        value.wrapping_add(amount)
                    };
                    self.tape.set(at, changed);
                    self.frames.set(depth - 1, onward);
                }
            },
            Inst::Output { slot } => {
                if slot != top.func || top.position >= self.tape.len() as u64 {
                    self.status = Status::Fault;
                } else {
                    let value = self.tape[top.position as usize];
                    self.output.push(value);
                    self.frames.set(depth - 1, onward);
                }
            },
            Inst::Input { slot } => {
                if slot != top.func || top.position >= self.tape.len() as u64 {
                    self.status = Status::Fault;
                } else {
                    let at = top.position as usize;
                    if self.consumed < self.input.len() {
                        let value = self.input[self.consumed];
                        self.tape.set(at, value);
                        self.consumed += 1;
                    } else {
                        self.tape.set(at, END_OF_INPUT);
                    }
                    self.frames.set(depth - 1, onward);
                }
            },
            Inst::Jump { target } => {
                self.jump(unit, target);
            },
            Inst::Branch { slot, if_nonzero, if_zero } => {
                if slot != top.func || top.position >= self.tape.len() as u64 {
                    self.status = Status::Fault;
                } else if self.tape[top.position as usize] != 0 {
                    self.jump(unit, if_nonzero);
                } else {
                    self.jump(unit, if_zero);
                }
            },
            Inst::Call { callee, slot } => {
                if slot != top.func || callee >= unit.funcs.len() {
                    self.status = Status::Fault;
                } else {
                    match unit.funcs[callee].name {
                        FuncName::Main => {
                            self.status = Status::Fault;
                        },
                        FuncName::Proc(_) => {
                            self.frames.set(depth - 1, onward);
                            self.frames.push(
                                Frame { func: callee, block: 0, next: 0, position: top.position },
                            );
                        },
                    }
                }
            },
            Inst::ReturnVoid => {
                match unit.funcs[top.func].name {
                    FuncName::Main => {
                        self.status = Status::Fault;
                    },
                    FuncName::Proc(_) => {
                        if depth < 2 {
                            self.status = Status::Fault;
                        } else {
                            self.frames.pop();
                        }
                    },
                }
            },
            Inst::ReturnZero => {
                match unit.funcs[top.func].name {
                    FuncName::Main => {
                        if depth != 1 {
                            self.status = Status::Fault;
                        } else {
                            self.status = Status::Finished;
                        }
                    },
                    FuncName::Proc(_) => {
                        self.status = Status::Fault;
                    },
                }
            },
        }
        assert(self@ =~= step(unit@, old(self)@));
    }

    /// Takes `fuel` steps, or fewer if the machine stops before.
    pub fn run(&mut self, unit: &Unit, fuel: u64)
        requires
            old(self).wf(),
        ensures
            final(self).wf(),
            final(self)@ == steps(unit@, old(self)@, fuel as nat),
    {
        let mut left: u64 = fuel;
        while left > 0
            invariant
                self.wf(),
                steps(unit@, old(self)@, fuel as nat) == steps(unit@, self@, left as nat),
            decreases left,
        {
            match self.status {
                Status::Running => {},
                _ => {
                    proof {
                        lemma_steps_halted(unit@, self@, left as nat);
                    }
                    return ;
                },
            }
            self.step(unit);
            left -= 1;
        }
    }
}

/// Runs `unit` from the start on `input`, for `fuel` steps at most.
pub fn run_unit(unit: &Unit, input: Vec<u8>, fuel: u64) -> (machine: Machine)
    ensures
        machine@ == steps(unit@, initial_machine(input@), fuel as nat),
{
    let mut machine = Machine::new(input);
    machine.run(unit, fuel);
    machine
}

} // verus!
