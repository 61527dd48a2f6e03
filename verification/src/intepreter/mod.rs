//! Runs functions on a stack of tapes.

pub mod err;
pub mod model;
mod tape;

use vstd::prelude::*;
use vstd::string::*;
use err::{RuntimeError, RuntimeErrorView};
use model::{
    blank_tape, combine, find_func, initial_machine, run_loop, run_named, run_node, run_nodes,
    Machine, Outcome, BASE_TAPE_LEN,
};
use tape::{group_tapes_view, tapes_view, Tape};
use crate::parse::lexer::{Op, StackOp};
use crate::parse::parser::{funcs_view, nodes_view, Func, FuncView, NodeView, OpNode};

verus! {

/// The error of a result, if any, with its text as a sequence of characters.
pub open spec fn result_view(res: Result<(), RuntimeError>) -> Result<(), RuntimeErrorView> {
    match res {
        Ok(()) => Ok(()),
        Err(error) => Err(error@),
    }
}

/// What an operation returns, and the state it leaves: the new state where
/// it succeeds, the old one where it fails.
pub open spec fn op_done(
    before: Machine,
    after: Machine,
    res: Result<(), RuntimeError>,
    step: Result<Machine, RuntimeErrorView>,
) -> bool {
    &&& after == before.after(step).machine
    &&& result_view(res) == before.after(step).result
}

/// A run ended as `outcome` says.
pub open spec fn run_done(after: Machine, res: Result<(), RuntimeError>, outcome: Outcome) -> bool {
    &&& after == outcome.machine
    &&& result_view(res) == outcome.result
}

broadcast use group_tapes_view;

/// A stack of tapes with the functions that can run on it.
pub struct Runtime {
    stack: Vec<Tape>,
    curr: usize,
    funcs: Vec<Func>,
    output: Vec<u32>,
    fuel: u64,
}

impl View for Runtime {
    type V = Machine;

    closed spec fn view(&self) -> Machine {
        Machine { stack: tapes_view(self.stack@), curr: self.curr as nat, output: self.output@ }
    }
}

impl Runtime {
    /// The functions that a run can call.
    pub closed spec fn functions(&self) -> Seq<FuncView> {
        funcs_view(self.funcs@)
    }

    /// The fuel that each run starts with.
    pub closed spec fn limit(&self) -> nat {
        self.fuel as nat
    }

    /// There is an active tape.
    pub open spec fn wf(&self) -> bool {
        self@.wf()
    }

    /// A runtime on one blank tape, with nothing written, that can call
    /// `funcs` and gives each run as much fuel as a `u64` holds.
    pub fn new(funcs: Vec<Func>) -> (runtime: Self)
        ensures
            runtime@ == initial_machine(),
            runtime.functions() == funcs_view(funcs@),
            runtime.limit() == u64::MAX,
    {
        let runtime = Self {
            stack: vec![Tape::new(BASE_TAPE_LEN)],
            curr: 0,
            funcs,
            output: Vec::new(),
            fuel: u64::MAX,
        };
        assert(runtime@.stack =~= initial_machine().stack);
        runtime
    }

    /// The same runtime with `fuel` for each run: the depth of calls and the
    /// rounds of a loop that a run may reach.
    pub fn with_limit(self, fuel: u64) -> (runtime: Self)
        ensures
            runtime@ == self@,
            runtime.functions() == self.functions(),
            runtime.limit() == fuel,
    {
        let mut runtime = self;
        runtime.fuel = fuel;
        runtime
    }

    /// The code points written so far, oldest first.
    pub fn output(&self) -> (out: &Vec<u32>)
        ensures
            out@ == self@.output,
    {
        &self.output
    }

    /// The index of the active tape.
    pub fn active_index(&self) -> (index: usize)
        ensures
            index == self@.curr,
    {
        self.curr
    }

    /// The number of tapes on the stack.
    pub fn tape_count(&self) -> (count: usize)
        ensures
            count == self@.stack.len(),
    {
        self.stack.len()
    }

    /// The cell at `index` of the tape at `tape`, where there is one.
    pub fn cell(&self, tape: usize, index: usize) -> (val: Option<u32>)
        ensures
            val == if tape < self@.stack.len() && index < self@.stack[tape as int].cells.len() {
                Some(self@.stack[tape as int].cells[index as int])
            } else {
                None::<u32>
            },
    {
        if tape < self.stack.len() {
            self.stack[tape].cell(index)
        } else {
            None
        }
    }

    /// The index of the cell under the cursor of the tape at `tape`, where
    /// there is such a tape.
    pub fn cursor(&self, tape: usize) -> (index: Option<usize>)
        ensures
            index == if tape < self@.stack.len() {
                Some(self@.stack[tape as int].cursor)
            } else {
                None::<usize>
            },
    {
        if tape < self.stack.len() {
            Some(self.stack[tape].cursor())
        } else {
            None
        }
    }

    fn curr_tape(&mut self) -> (tape: &mut Tape)
        requires
            old(self).wf(),
        ensures
            *tape == old(self).stack[old(self).curr as int],
            final(self).stack@ == old(self).stack@.update(old(self).curr as int, *final(tape)),
            final(self).curr == old(self).curr,
            final(self).funcs == old(self).funcs,
            final(self).output == old(self).output,
            final(self).fuel == old(self).fuel,
    {
        &mut self.stack[self.curr]
    }

    /// Runs the first function called `name` on the stack as it stands. The
    /// run goes on to the end of the function or to the first node that
    /// fails; what it wrote is added to the output, and a node that fails
    /// leaves the stack as it found it.
    pub fn run_func_with_name(&mut self, name: String) -> (res: Result<(), RuntimeError>)
        requires
            old(self).wf(),
        ensures
            final(self).wf(),
            final(self).functions() == old(self).functions(),
            final(self).limit() == old(self).limit(),
            run_done(
                final(self)@,
                res,
                run_named(old(self).functions(), old(self)@, name@, old(self).limit()),
            ),
    {
        let mut funcs = Vec::new();
        core::mem::swap(&mut funcs, &mut self.funcs);
        let res = self.call(&funcs, name, self.fuel);
        core::mem::swap(&mut funcs, &mut self.funcs);
        res
    }

    /// Runs the function called `name` among `funcs`.
    fn call(&mut self, funcs: &Vec<Func>, name: String, fuel: u64) -> (res: Result<
        (),
        RuntimeError,
    >)
        requires
            old(self).wf(),
        ensures
            final(self).wf(),
            final(self).funcs == old(self).funcs,
            final(self).fuel == old(self).fuel,
            run_done(
                final(self)@,
                res,
                run_named(funcs_view(funcs@), old(self)@, name@, fuel as nat),
            ),
        decreases fuel, 4nat,
    {
        let mut k: usize = 0;
        while k < funcs.len()
            invariant
                k <= funcs.len(),
                *self == *old(self),
                self.wf(),
                find_func(funcs_view(funcs@), name@, 0) == find_func(
                    funcs_view(funcs@),
                    name@,
                    k as int,
                ),
            decreases funcs.len() - k,
        {
            assert(funcs_view(funcs@)[k as int] == funcs[k as int]@);
            if funcs[k].name == name {
                return self.run_func(funcs, &funcs[k], fuel);
            }
            k += 1;
        }
        Err(RuntimeError::FunctionNotDefined(name))
    }

    fn run_func(&mut self, funcs: &Vec<Func>, func: &Func, fuel: u64) -> (res: Result<
        (),
        RuntimeError,
    >)
        requires
            old(self).wf(),
        ensures
            final(self).wf(),
            final(self).funcs == old(self).funcs,
            final(self).fuel == old(self).fuel,
            run_done(
                final(self)@,
                res,
                match func@.node {
                    NodeView::Root(children) => run_nodes(
                        funcs_view(funcs@),
                        old(self)@,
                        children,
                        0,
                        fuel as nat,
                    ),
                    _ => Outcome { machine: old(self)@, result: Err(RuntimeErrorView::Generic) },
                },
            ),
        decreases fuel, 3nat,
    {
        match &func.node {
            OpNode::Root(children) => self.run_nodes(funcs, children, fuel),
            // branch should never be reached
            _ => Err(RuntimeError::Generic),
        }
    }

    /// Runs `nodes` one after the other.
    fn run_nodes(&mut self, funcs: &Vec<Func>, nodes: &Vec<OpNode>, fuel: u64) -> (res: Result<
        (),
        RuntimeError,
    >)
        requires
            old(self).wf(),
        ensures
            final(self).wf(),
            final(self).funcs == old(self).funcs,
            final(self).fuel == old(self).fuel,
            run_done(
                final(self)@,
                res,
                run_nodes(funcs_view(funcs@), old(self)@, nodes_view(nodes@), 0, fuel as nat),
            ),
        decreases fuel, 2nat,
    {
        let ghost goal = run_nodes(
            funcs_view(funcs@),
            self@,
            nodes_view(nodes@),
            0,
            fuel as nat,
        );
        let mut i: usize = 0;
        while i < nodes.len()
            invariant
                i <= nodes.len(),
                self.wf(),
                self.funcs == old(self).funcs,
                self.fuel == old(self).fuel,
                goal == run_nodes(
                    funcs_view(funcs@),
                    self@,
                    nodes_view(nodes@),
                    i as int,
                    fuel as nat,
                ),
                goal == run_nodes(
                    funcs_view(funcs@),
                    old(self)@,
                    nodes_view(nodes@),
                    0,
                    fuel as nat,
                ),
            decreases nodes.len() - i,
        {
            assert(nodes_view(nodes@)[i as int] == nodes[i as int]@);
            self.run_node(funcs, &nodes[i], fuel)?;
            i += 1;
        }
        Ok(())
    }

    fn run_node(&mut self, funcs: &Vec<Func>, node: &OpNode, fuel: u64) -> (res: Result<
        (),
        RuntimeError,
    >)
        requires
            old(self).wf(),
        ensures
            final(self).wf(),
            final(self).funcs == old(self).funcs,
            final(self).fuel == old(self).fuel,
            run_done(
                final(self)@,
                res,
                run_node(funcs_view(funcs@), old(self)@, node@, fuel as nat),
            ),
        decreases fuel, 1nat,
    {
        match node {
            OpNode::FuncCall(name) => {
                if fuel == 0 {
                    return Err(RuntimeError::FuelExhausted);
                }
                self.call(funcs, name.clone(), fuel - 1)
            },
            OpNode::Operation(op) => self.op(op),
            OpNode::Loop(children) => {
                let ghost goal = run_loop(
                    funcs_view(funcs@),
                    self@,
                    nodes_view(children@),
                    fuel as nat,
                );
                let mut left = fuel;
                loop
                    invariant
                        left <= fuel,
                        self.wf(),
                        self.funcs == old(self).funcs,
                        self.fuel == old(self).fuel,
                        goal == run_loop(
                            funcs_view(funcs@),
                            self@,
                            nodes_view(children@),
                            left as nat,
                        ),
                        goal == run_node(funcs_view(funcs@), old(self)@, node@, fuel as nat),
                    decreases left,
                {
                    if self.stack[self.curr].curr_val()? == 0 {
                        return Ok(());
                    }
                    if left == 0 {
                        return Err(RuntimeError::FuelExhausted);
                    }
                    left -= 1;
                    self.run_nodes(funcs, children, left)?;
                }
            },
            OpNode::Root(_) => Err(RuntimeError::Generic),
        }
    }

    /// The fold of `carried` with `found`.
    fn fold(op: StackOp, carried: u32, found: u32) -> (res: Result<u32, RuntimeError>)
        ensures
            match combine(op, carried, found) {
                Ok(val) => res == Ok::<u32, RuntimeError>(val),
                Err(error) => res matches Err(e) && e@ == error,
            },
    {
        match op {
            StackOp::Default => Ok(carried),
            StackOp::Assign => Ok(carried),
            StackOp::Add => Ok(carried.wrapping_add(found)),
            StackOp::Sub => Ok(carried.wrapping_sub(found)),
            StackOp::Mul => Ok(carried.wrapping_mul(found)),
            StackOp::Div => {
                if found == 0 {
                    Err(RuntimeError::DivisionByZero)
                } else {
                    Ok(carried / found)
                }
            },
            StackOp::BitAnd => Ok(carried & found),
            StackOp::BitOr => Ok(carried | found),
            StackOp::BitXor => Ok(carried ^ found),
        }
    }

    fn op(&mut self, op: &Op) -> (res: Result<(), RuntimeError>)
        requires
            old(self).wf(),
        ensures
            final(self).wf(),
            final(self).funcs == old(self).funcs,
            final(self).fuel == old(self).fuel,
            op_done(old(self)@, final(self)@, res, old(self)@.op(op@)),
    {
        match op {
            // Standard Operations
            Op::Literal(lit) => {
                self.curr_tape().literal(lit);
                Ok(())
            },
            Op::Inc => self.curr_tape().inc(),
            Op::Dec => self.curr_tape().dec(),
            Op::PtrRight => self.curr_tape().ptr_right(),
            Op::PtrLeft => self.curr_tape().ptr_left(),
            Op::Dump => {
                let val = self.stack[self.curr].dump()?;
                self.output.push(val);
                Ok(())
            },
            Op::Take => {
                self.curr_tape().intake();
                Ok(())
            },
            Op::BitNot => self.curr_tape().bit_not(),
            // Stack Operations
            Op::PushNew(size) => self.push_new(*size),
            Op::PushOp(op) => match op {
                StackOp::Default => self.push(),
                _ => self.push_op(*op),
            },
            Op::HardPopOp(op) => match op {
                StackOp::Default => self.hard_pop(),
                _ => self.hard_pop_op(*op),
            },
            Op::PopOp(op) => match op {
                StackOp::Default => self.pop(),
                _ => self.pop_op(*op),
            },
        }
    }

    // Stack Operation Specific Funcs
    fn push_new(&mut self, size: usize) -> (res: Result<(), RuntimeError>)
        requires
            old(self).wf(),
        ensures
            final(self).wf(),
            final(self).funcs == old(self).funcs,
            final(self).fuel == old(self).fuel,
            op_done(old(self)@, final(self)@, res, old(self)@.push_new(size)),
    {
        self.stack.push(Tape::new(size));
        assert(self@.stack =~= old(self)@.stack.push(blank_tape(size)));
        self.push()
    }

    fn push(&mut self) -> (res: Result<(), RuntimeError>)
        requires
            old(self).wf(),
        ensures
            final(self).wf(),
            final(self).funcs == old(self).funcs,
            final(self).fuel == old(self).fuel,
            final(self).stack == old(self).stack,
            op_done(old(self)@, final(self)@, res, old(self)@.push()),
    {
        assert(self@.stack.len() == self.stack.len());
        // returns err if pointer exceeds stack length
        if self.curr + 1 >= self.stack.len() {
            return Err(RuntimeError::StackIndexOutOfBounds(self.curr + 1, self.stack.len()));
        }
        self.curr += 1;
        Ok(())
    }

    fn hard_pop(&mut self) -> (res: Result<(), RuntimeError>)
        requires
            old(self).wf(),
        ensures
            final(self).wf(),
            final(self).funcs == old(self).funcs,
            final(self).fuel == old(self).fuel,
            op_done(old(self)@, final(self)@, res, old(self)@.hard_pop()),
    {
        if self.curr == 0 {
            return Err(RuntimeError::StackIndexCannotBeNegative);
        }
        // deletes current tape then moves down
        self.stack.remove(self.curr);
        assert(self@.stack =~= old(self)@.stack.remove(old(self).curr as int));
        self.pop()
    }

    fn pop(&mut self) -> (res: Result<(), RuntimeError>)
        ensures
            final(self).funcs == old(self).funcs,
            final(self).fuel == old(self).fuel,
            final(self).stack == old(self).stack,
            op_done(old(self)@, final(self)@, res, old(self)@.pop()),
    {
        if self.curr == 0 {
            return Err(RuntimeError::StackIndexCannotBeNegative);
        }
        self.curr -= 1;
        Ok(())
    }

    /// Puts the fold of `carried` with the cell under the cursor of the
    /// active tape into that cell.
    fn fold_in(&mut self, op: StackOp, carried: u32) -> (res: Result<(), RuntimeError>)
        requires
            old(self).wf(),
        ensures
            final(self).wf(),
            final(self).funcs == old(self).funcs,
            final(self).fuel == old(self).fuel,
            final(self).curr == old(self).curr,
            final(self).stack.len() == old(self).stack.len(),
            match old(self)@.active().value() {
                Ok(found) => match combine(op, carried, found) {
                    Ok(val) => res is Ok && final(self)@ == old(self)@.with_active(
                        old(self)@.active().store(val)->Ok_0,
                    ),
                    Err(error) => res matches Err(e) && e@ == error && final(self)@ == old(self)@,
                },
                Err(error) => res matches Err(e) && e@ == error && final(self)@ == old(self)@,
            },
    {
        let found = self.stack[self.curr].curr_val()?;
        let val = Self::fold(op, carried, found)?;
        self.curr_tape().set(val)
    }

    fn pop_op(&mut self, op: StackOp) -> (res: Result<(), RuntimeError>)
        requires
            old(self).wf(),
        ensures
            final(self).wf(),
            final(self).funcs == old(self).funcs,
            final(self).fuel == old(self).fuel,
            op_done(old(self)@, final(self)@, res, old(self)@.pop_op(op)),
    {
        let val1 = self.stack[self.curr].curr_val()?;
        self.pop()?;
        let res = self.fold_in(op, val1);
        if res.is_err() {
            self.curr += 1;
        }
        res
    }

    fn hard_pop_op(&mut self, op: StackOp) -> (res: Result<(), RuntimeError>)
        requires
            old(self).wf(),
        ensures
            final(self).wf(),
            final(self).funcs == old(self).funcs,
            final(self).fuel == old(self).fuel,
            op_done(old(self)@, final(self)@, res, old(self)@.hard_pop_op(op)),
    {
        let val1 = self.stack[self.curr].curr_val()?;
        if self.curr == 0 {
            return Err(RuntimeError::StackIndexCannotBeNegative);
        }
        // the fold is tried on the tape below before the active tape leaves
        self.curr -= 1;
        let res = self.fold_in(op, val1);
        self.curr += 1;
        if res.is_ok() {
            proof {
                let below = old(self).curr - 1;
                let tape = self@.stack[below];
                assert(old(self)@.stack.update(below, tape).remove(old(self).curr as int)
                    =~= old(self)@.stack.remove(old(self).curr as int).update(below, tape));
            }
            return self.hard_pop();
        }
        res
    }

    fn push_op(&mut self, op: StackOp) -> (res: Result<(), RuntimeError>)
        requires
            old(self).wf(),
        ensures
            final(self).wf(),
            final(self).funcs == old(self).funcs,
            final(self).fuel == old(self).fuel,
            op_done(old(self)@, final(self)@, res, old(self)@.push_op(op)),
    {
        let val1 = self.stack[self.curr].curr_val()?;
        self.push()?;
        let res = self.fold_in(op, val1);
        self.curr -= 1;
        res
    }
}

} // verus!
