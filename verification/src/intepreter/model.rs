//! What a run does, as functions on the state of the tapes.

use vstd::prelude::*;
use super::err::RuntimeErrorView;
use crate::parse::lexer::{OpView, StackOp};
use crate::parse::parser::{FuncView, NodeView};

verus! {

/// A tape: its cells and the index of the cell under its cursor, which may
/// lie beyond the last cell.
pub ghost struct TapeView {
    pub cells: Seq<u32>,
    pub cursor: usize,
}

/// The state of a run: the stack of tapes, the index of the active tape, and
/// the code points written so far.
pub ghost struct Machine {
    pub stack: Seq<TapeView>,
    pub curr: nat,
    pub output: Seq<u32>,
}

/// How a run ended, and the state it ended in.
pub ghost struct Outcome {
    pub machine: Machine,
    pub result: Result<(), RuntimeErrorView>,
}

/// The number of cells of the tape that every run starts on.
pub const BASE_TAPE_LEN: usize = 1;

/// A tape of `size` cells, all zero, with the cursor on the first.
pub open spec fn blank_tape(size: usize) -> TapeView {
    TapeView { cells: Seq::new(size as nat, |i: int| 0u32), cursor: 0 }
}

/// The state in which every run starts: one blank tape, active, and nothing
/// written.
pub open spec fn initial_machine() -> Machine {
    Machine { stack: seq![blank_tape(BASE_TAPE_LEN)], curr: 0, output: Seq::empty() }
}

impl TapeView {
    /// The cell under the cursor, where there is one.
    pub open spec fn value(self) -> Result<u32, RuntimeErrorView> {
        if self.cursor >= self.cells.len() {
            Err(RuntimeErrorView::TapeIndexOutOfBounds(self.cursor, self.cells.len() as usize))
        } else {
            Ok(self.cells[self.cursor as int])
        }
    }

    /// The tape with `val` in the cell under the cursor, where there is one.
    pub open spec fn store(self, val: u32) -> Result<TapeView, RuntimeErrorView> {
        match self.value() {
            Ok(_) => Ok(TapeView { cells: self.cells.update(self.cursor as int, val), ..self }),
            Err(error) => Err(error),
        }
    }

    /// One more in the cell under the cursor; the largest value goes to zero.
    pub open spec fn inc(self) -> Result<TapeView, RuntimeErrorView> {
        match self.value() {
            Ok(val) => self.store(val.wrapping_add(1)),
            Err(error) => Err(error),
        }
    }

    /// One less in the cell under the cursor; zero goes to the largest value.
    pub open spec fn dec(self) -> Result<TapeView, RuntimeErrorView> {
        match self.value() {
            Ok(val) => self.store(val.wrapping_sub(1)),
            Err(error) => Err(error),
        }
    }

    /// Every bit of the cell under the cursor turned over.
    pub open spec fn bit_not(self) -> Result<TapeView, RuntimeErrorView> {
        match self.value() {
            Ok(val) => self.store(!val),
            Err(error) => Err(error),
        }
    }

    /// The cursor one cell to the right, with no look at where the tape ends.
    pub open spec fn ptr_right(self) -> Result<TapeView, RuntimeErrorView> {
        if self.cursor == usize::MAX {
            Err(RuntimeErrorView::TapeIndexOutOfBounds(self.cursor, self.cells.len() as usize))
        } else {
            Ok(TapeView { cursor: (self.cursor + 1) as usize, ..self })
        }
    }

    /// The cursor one cell to the left.
    pub open spec fn ptr_left(self) -> Result<TapeView, RuntimeErrorView> {
        if self.cursor == 0 {
            Err(RuntimeErrorView::TapeIndexCannotBeNegative)
        } else {
            Ok(TapeView { cursor: (self.cursor - 1) as usize, ..self })
        }
    }

    /// The code points of `text` in the cells from the cursor on, as far as
    /// the tape reaches; the cursor stays.
    pub open spec fn literal(self, text: Seq<char>) -> TapeView {
        TapeView {
            cells: Seq::new(
                self.cells.len(),
                |i: int|
                    if self.cursor <= i < self.cursor + text.len() {
                        text[i - self.cursor] as u32
                    } else {
                        self.cells[i]
                    },
            ),
            ..self
        }
    }
}

/// The fold of `carried`, the value that a stack operation brings along,
/// with `found`, the value in the cell it lands on. Sums, differences and
/// products wrap round; a quotient by zero is an error.
pub open spec fn combine(op: StackOp, carried: u32, found: u32) -> Result<u32, RuntimeErrorView> {
    match op {
        StackOp::Default => Ok(carried),
        StackOp::Assign => Ok(carried),
        StackOp::Add => Ok(carried.wrapping_add(found)),
        StackOp::Sub => Ok(carried.wrapping_sub(found)),
        StackOp::Mul => Ok(carried.wrapping_mul(found)),
        StackOp::Div => if found == 0 {
            Err(RuntimeErrorView::DivisionByZero)
        } else {
            Ok(carried / found)
        },
        StackOp::BitAnd => Ok(carried & found),
        StackOp::BitOr => Ok(carried | found),
        StackOp::BitXor => Ok(carried ^ found),
    }
}

impl Machine {
    /// There is an active tape.
    pub open spec fn wf(self) -> bool {
        self.curr < self.stack.len()
    }

    /// The active tape.
    pub open spec fn active(self) -> TapeView {
        self.stack[self.curr as int]
    }

    /// The state with `tape` in place of the active tape.
    pub open spec fn with_active(self, tape: TapeView) -> Machine {
        Machine { stack: self.stack.update(self.curr as int, tape), ..self }
    }

    /// The state after an operation on the active tape alone.
    pub open spec fn on_active(self, tape: Result<TapeView, RuntimeErrorView>) -> Result<
        Machine,
        RuntimeErrorView,
    > {
        match tape {
            Ok(tape) => Ok(self.with_active(tape)),
            Err(error) => Err(error),
        }
    }

    /// The tape above becomes active, where there is one.
    pub open spec fn push(self) -> Result<Machine, RuntimeErrorView> {
        if self.curr + 1 >= self.stack.len() {
            Err(
                RuntimeErrorView::StackIndexOutOfBounds(
                    (self.curr + 1) as usize,
                    self.stack.len() as usize,
                ),
            )
        } else {
            Ok(Machine { curr: self.curr + 1, ..self })
        }
    }

    /// The tape below becomes active, where there is one.
    pub open spec fn pop(self) -> Result<Machine, RuntimeErrorView> {
        if self.curr == 0 {
            Err(RuntimeErrorView::StackIndexCannotBeNegative)
        } else {
            Ok(Machine { curr: (self.curr - 1) as nat, ..self })
        }
    }

    /// A blank tape of `size` cells goes on top of the stack, and the tape
    /// above the active one becomes active.
    pub open spec fn push_new(self, size: usize) -> Result<Machine, RuntimeErrorView> {
        Machine { stack: self.stack.push(blank_tape(size)), ..self }.push()
    }

    /// The active tape leaves the stack and the tape below it becomes active,
    /// where there is one.
    pub open spec fn hard_pop(self) -> Result<Machine, RuntimeErrorView> {
        if self.curr == 0 {
            Err(RuntimeErrorView::StackIndexCannotBeNegative)
        } else {
            Ok(
                Machine {
                    stack: self.stack.remove(self.curr as int),
                    curr: (self.curr - 1) as nat,
                    ..self
                },
            )
        }
    }

    /// The state `landed`, reached from `self` by a move on the stack, with
    /// the fold of the cell that was active before the move and the cell
    /// that is active after it in the latter.
    pub open spec fn fold_into(
        self,
        landed: Result<Machine, RuntimeErrorView>,
        op: StackOp,
    ) -> Result<Machine, RuntimeErrorView> {
        match self.active().value() {
            Ok(carried) => match landed {
                Ok(landed) => match landed.active().value() {
                    Ok(found) => match combine(op, carried, found) {
                        Ok(val) => landed.on_active(landed.active().store(val)),
                        Err(error) => Err(error),
                    },
                    Err(error) => Err(error),
                },
                Err(error) => Err(error),
            },
            Err(error) => Err(error),
        }
    }

    /// The fold goes into the cell under the cursor of the tape above; the
    /// active tape stays active.
    pub open spec fn push_op(self, op: StackOp) -> Result<Machine, RuntimeErrorView> {
        match self.fold_into(self.push(), op) {
            Ok(above) => above.pop(),
            Err(error) => Err(error),
        }
    }

    /// The tape below becomes active, and the fold goes into the cell under
    /// its cursor.
    pub open spec fn pop_op(self, op: StackOp) -> Result<Machine, RuntimeErrorView> {
        self.fold_into(self.pop(), op)
    }

    /// The active tape leaves the stack, the tape below becomes active, and
    /// the fold goes into the cell under its cursor.
    pub open spec fn hard_pop_op(self, op: StackOp) -> Result<Machine, RuntimeErrorView> {
        self.fold_into(self.hard_pop(), op)
    }

    /// The cell under the cursor of the active tape goes to the output.
    pub open spec fn dump(self) -> Result<Machine, RuntimeErrorView> {
        match self.active().value() {
            Ok(val) => Ok(Machine { output: self.output.push(val), ..self }),
            Err(error) => Err(error),
        }
    }

    /// The state after one operation. An operation that fails leaves the
    /// state as it was.
    pub open spec fn op(self, op: OpView) -> Result<Machine, RuntimeErrorView> {
        match op {
            OpView::Literal(text) => Ok(self.with_active(self.active().literal(text))),
            OpView::Inc => self.on_active(self.active().inc()),
            OpView::Dec => self.on_active(self.active().dec()),
            OpView::PtrRight => self.on_active(self.active().ptr_right()),
            OpView::PtrLeft => self.on_active(self.active().ptr_left()),
            OpView::Dump => self.dump(),
            OpView::Take => Ok(self),
            OpView::BitNot => self.on_active(self.active().bit_not()),
            OpView::PushNew(size) => self.push_new(size),
            OpView::PushOp(StackOp::Default) => self.push(),
            OpView::PushOp(op) => self.push_op(op),
            OpView::HardPopOp(StackOp::Default) => self.hard_pop(),
            OpView::HardPopOp(op) => self.hard_pop_op(op),
            OpView::PopOp(StackOp::Default) => self.pop(),
            OpView::PopOp(op) => self.pop_op(op),
        }
    }

    /// The outcome of one operation.
    pub open spec fn after(self, step: Result<Machine, RuntimeErrorView>) -> Outcome {
        match step {
            Ok(machine) => Outcome { machine, result: Ok(()) },
            Err(error) => Outcome { machine: self, result: Err(error) },
        }
    }
}

/// The index of the first function, at or after index `from`, that is called
/// `name`.
pub open spec fn find_func(funcs: Seq<FuncView>, name: Seq<char>, from: int) -> Option<int>
    decreases funcs.len() - from,
{
    if from < 0 || from >= funcs.len() {
        None
    } else if funcs[from].name == name {
        Some(from)
    } else {
        find_func(funcs, name, from + 1)
    }
}

/// Runs the function called `name`: the first of that name where several
/// have it. `fuel` bounds the depth of calls and the number of times that a
/// loop goes round.
pub open spec fn run_named(funcs: Seq<FuncView>, m: Machine, name: Seq<char>, fuel: nat) -> Outcome
    decreases fuel, 3nat, 0nat,
{
    match find_func(funcs, name, 0) {
        None => Outcome { machine: m, result: Err(RuntimeErrorView::FunctionNotDefined(name)) },
        Some(k) => match funcs[k].node {
            NodeView::Root(children) => run_nodes(funcs, m, children, 0, fuel),
            _ => Outcome { machine: m, result: Err(RuntimeErrorView::Generic) },
        },
    }
}

/// Runs the nodes from index `i` on, one after the other, up to the first
/// that fails.
pub open spec fn run_nodes(
    funcs: Seq<FuncView>,
    m: Machine,
    nodes: Seq<NodeView>,
    i: int,
    fuel: nat,
) -> Outcome
    decreases fuel, 2nat, nodes.len() - i,
{
    if i < 0 || i >= nodes.len() {
        Outcome { machine: m, result: Ok(()) }
    } else {
        let first = run_node(funcs, m, nodes[i], fuel);
        if first.result is Ok {
            run_nodes(funcs, first.machine, nodes, i + 1, fuel)
        } else {
            first
        }
    }
}

/// Runs one node. A call costs one unit of fuel.
pub open spec fn run_node(funcs: Seq<FuncView>, m: Machine, node: NodeView, fuel: nat) -> Outcome
    decreases fuel, 1nat, 0nat,
{
    match node {
        NodeView::FuncCall(name) => if fuel == 0 {
            Outcome { machine: m, result: Err(RuntimeErrorView::FuelExhausted) }
        } else {
            run_named(funcs, m, name, (fuel - 1) as nat)
        },
        NodeView::Operation(op) => m.after(m.op(op)),
        NodeView::Loop(children) => run_loop(funcs, m, children, fuel),
        NodeView::Root(_) => Outcome { machine: m, result: Err(RuntimeErrorView::Generic) },
    }
}

/// Runs a loop: before every round, the first too, the cell under the cursor
/// of the active tape is looked at, and the loop ends where it is zero. A
/// round costs one unit of fuel, and a node that fails ends the loop.
pub open spec fn run_loop(
    funcs: Seq<FuncView>,
    m: Machine,
    body: Seq<NodeView>,
    fuel: nat,
) -> Outcome
    decreases fuel, 0nat, 0nat,
{
    match m.active().value() {
        Err(error) => Outcome { machine: m, result: Err(error) },
        Ok(val) => if val == 0 {
            Outcome { machine: m, result: Ok(()) }
        } else if fuel == 0 {
            Outcome { machine: m, result: Err(RuntimeErrorView::FuelExhausted) }
        } else {
            let round = run_nodes(funcs, m, body, 0, (fuel - 1) as nat);
            if round.result is Ok {
                run_loop(funcs, round.machine, body, (fuel - 1) as nat)
            } else {
                round
            }
        },
    }
}

/// The state after the operations `ops`, one after the other, or the error
/// of the first that fails.
pub open spec fn run_ops(m: Machine, ops: Seq<OpView>) -> Result<Machine, RuntimeErrorView>
    decreases ops.len(),
{
    if ops.len() == 0 {
        Ok(m)
    } else {
        match m.op(ops[0]) {
            Ok(next) => run_ops(next, ops.drop_first()),
            Err(error) => Err(error),
        }
    }
}

/// A loop whose cell is zero when it is reached runs no round: the state
/// stays as it is, whatever the body and the fuel.
pub proof fn lemma_loop_on_zero_runs_no_round(
    funcs: Seq<FuncView>,
    m: Machine,
    body: Seq<NodeView>,
    fuel: nat,
)
    requires
        m.active().value() == Ok::<u32, RuntimeErrorView>(0),
    ensures
        run_loop(funcs, m, body, fuel) == (Outcome { machine: m, result: Ok(()) }),
{
}

/// A loop whose cell is not zero runs its body once and then stands before
/// the same test again, in the state that the body left: the cell is looked
/// at before every round. A body that fails ends the loop with its error.
pub proof fn lemma_loop_tests_before_every_round(
    funcs: Seq<FuncView>,
    m: Machine,
    body: Seq<NodeView>,
    fuel: nat,
)
    requires
        m.active().value() matches Ok(val) && val != 0,
        fuel > 0,
    ensures
        ({
            let round = run_nodes(funcs, m, body, 0, (fuel - 1) as nat);
            run_loop(funcs, m, body, fuel) == if round.result is Ok {
                run_loop(funcs, round.machine, body, (fuel - 1) as nat)
            } else {
                round
            }
        }),
{
}

/// An operation that succeeds on a state with an active tape leaves a state
/// with an active tape.
pub proof fn lemma_op_keeps_active_tape(m: Machine, op: OpView)
    requires
        m.wf(),
    ensures
        m.op(op) matches Ok(next) ==> next.wf(),
{
}

/// After any sequence of operations that all succeed, the index of the
/// active tape lies within the stack.
pub proof fn lemma_ops_keep_active_tape(m: Machine, ops: Seq<OpView>)
    requires
        m.wf(),
    ensures
        run_ops(m, ops) matches Ok(last) ==> last.wf(),
    decreases ops.len(),
{
    if ops.len() > 0 {
        lemma_op_keeps_active_tape(m, ops[0]);
        if let Ok(next) = m.op(ops[0]) {
            lemma_ops_keep_active_tape(next, ops.drop_first());
        }
    }
}

/// A call leaves a state with an active tape, however it ends.
pub proof fn lemma_run_named_keeps_active_tape(
    funcs: Seq<FuncView>,
    m: Machine,
    name: Seq<char>,
    fuel: nat,
)
    requires
        m.wf(),
    ensures
        run_named(funcs, m, name, fuel).machine.wf(),
    decreases fuel, 3nat, 0nat,
{
    if let Some(k) = find_func(funcs, name, 0) {
        if let NodeView::Root(children) = funcs[k].node {
            lemma_run_nodes_keeps_active_tape(funcs, m, children, 0, fuel);
        }
    }
}

/// A list of nodes leaves a state with an active tape, however it ends.
pub proof fn lemma_run_nodes_keeps_active_tape(
    funcs: Seq<FuncView>,
    m: Machine,
    nodes: Seq<NodeView>,
    i: int,
    fuel: nat,
)
    requires
        m.wf(),
    ensures
        run_nodes(funcs, m, nodes, i, fuel).machine.wf(),
    decreases fuel, 2nat, nodes.len() - i,
{
    if 0 <= i < nodes.len() {
        lemma_run_node_keeps_active_tape(funcs, m, nodes[i], fuel);
        let first = run_node(funcs, m, nodes[i], fuel);
        if first.result is Ok {
            lemma_run_nodes_keeps_active_tape(funcs, first.machine, nodes, i + 1, fuel);
        }
    }
}

/// A node leaves a state with an active tape, however it ends: the index of
/// the active tape lies within the stack in every state that a run reaches.
pub proof fn lemma_run_node_keeps_active_tape(
    funcs: Seq<FuncView>,
    m: Machine,
    node: NodeView,
    fuel: nat,
)
    requires
        m.wf(),
    ensures
        run_node(funcs, m, node, fuel).machine.wf(),
    decreases fuel, 1nat, 0nat,
{
    match node {
        NodeView::FuncCall(name) => {
            if fuel > 0 {
                lemma_run_named_keeps_active_tape(funcs, m, name, (fuel - 1) as nat);
            }
        },
        NodeView::Operation(op) => {
            lemma_op_keeps_active_tape(m, op);
        },
        NodeView::Loop(children) => {
            lemma_run_loop_keeps_active_tape(funcs, m, children, fuel);
        },
        NodeView::Root(_) => {},
    }
}

/// A loop leaves a state with an active tape, however it ends.
pub proof fn lemma_run_loop_keeps_active_tape(
    funcs: Seq<FuncView>,
    m: Machine,
    body: Seq<NodeView>,
    fuel: nat,
)
    requires
        m.wf(),
    ensures
        run_loop(funcs, m, body, fuel).machine.wf(),
    decreases fuel, 0nat, 0nat,
{
    if let Ok(val) = m.active().value() {
        if val != 0 && fuel > 0 {
            lemma_run_nodes_keeps_active_tape(funcs, m, body, 0, (fuel - 1) as nat);
            let round = run_nodes(funcs, m, body, 0, (fuel - 1) as nat);
            if round.result is Ok {
                lemma_run_loop_keeps_active_tape(funcs, round.machine, body, (fuel - 1) as nat);
            }
        }
    }
}

/// On the bottom tape every pop fails, with or without a fold, and whether
/// or not the active tape is to leave the stack.
pub proof fn lemma_pop_on_bottom_fails(m: Machine, op: StackOp)
    requires
        m.wf(),
        m.curr == 0,
    ensures
        m.op(OpView::PopOp(op)) is Err,
        m.op(OpView::HardPopOp(op)) is Err,
        m.pop() == Err::<Machine, RuntimeErrorView>(RuntimeErrorView::StackIndexCannotBeNegative),
        m.hard_pop() == Err::<Machine, RuntimeErrorView>(
            RuntimeErrorView::StackIndexCannotBeNegative,
        ),
{
}

/// On the top tape a push finds no tape to land on: without a fold it fails
/// with the index it aimed at and the number of tapes, and with a fold it
/// fails with that error or, where the cursor of the active tape stands
/// beyond the tape, with the error of that.
pub proof fn lemma_push_on_top_fails(m: Machine, op: StackOp)
    requires
        m.wf(),
        m.curr + 1 == m.stack.len(),
    ensures
        m.push() == Err::<Machine, RuntimeErrorView>(
            RuntimeErrorView::StackIndexOutOfBounds(
                (m.curr + 1) as usize,
                m.stack.len() as usize,
            ),
        ),
        m.op(OpView::PushOp(op)) matches Err(error) && (error == m.push()->Err_0
            || m.active().value() == Err::<u32, RuntimeErrorView>(error)),
{
}

/// A new tape pushed and the active tape then removed leave the index of the
/// active tape and the number of tapes as they were.
pub proof fn lemma_push_new_then_hard_pop(m: Machine, size: usize)
    requires
        m.wf(),
    ensures
        m.push_new(size) matches Ok(pushed) && pushed.hard_pop() matches Ok(popped) && popped.curr
            == m.curr && popped.stack.len() == m.stack.len() && popped.output == m.output,
{
}

} // verus!
