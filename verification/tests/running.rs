use migraine::intepreter::err::RuntimeError;
use migraine::intepreter::Runtime;
use migraine::parse::lexer::{Op, StackOp};
use migraine::parse::parse;
use migraine::parse::parser::{Func, OpNode};

/// A runtime on one function `main` made of `ops`.
fn runtime_of(ops: Vec<Op>) -> Runtime {
    let nodes = ops.into_iter().map(OpNode::Operation).collect();
    Runtime::new(vec![Func { name: "main".to_string(), node: OpNode::Root(nodes) }])
}

fn run_ops(ops: Vec<Op>) -> (Runtime, Result<(), RuntimeError>) {
    let mut runtime = runtime_of(ops);
    let res = runtime.run_func_with_name("main".to_string());
    (runtime, res)
}

fn run_source(src: &str) -> (Runtime, Result<(), RuntimeError>) {
    let mut runtime = Runtime::new(parse(src.to_string()).unwrap());
    let res = runtime.run_func_with_name("main".to_string());
    (runtime, res)
}

#[test]
fn new_runtime_has_one_blank_tape() {
    let runtime = Runtime::new(vec![]);
    assert_eq!(runtime.tape_count(), 1);
    assert_eq!(runtime.active_index(), 0);
    assert_eq!(runtime.cell(0, 0), Some(0));
    assert_eq!(runtime.cell(0, 1), None);
    assert_eq!(runtime.cell(1, 0), None);
    assert_eq!(runtime.cursor(0), Some(0));
    assert_eq!(runtime.cursor(1), None);
    assert!(runtime.output().is_empty());
}

#[test]
fn missing_function_is_reported() {
    let (_, res) = run_source("@other { }");
    assert_eq!(res, Err(RuntimeError::FunctionNotDefined("main".to_string())));
}

#[test]
fn first_function_of_a_name_runs() {
    let (runtime, res) = run_source("@main { + } @main { - }");
    assert_eq!(res, Ok(()));
    assert_eq!(runtime.cell(0, 0), Some(1));
}

#[test]
fn function_without_root_is_refused() {
    let mut runtime =
        Runtime::new(vec![Func { name: "main".to_string(), node: OpNode::Loop(vec![]) }]);
    assert_eq!(runtime.run_func_with_name("main".to_string()), Err(RuntimeError::Generic));
    let mut runtime = Runtime::new(vec![Func {
        name: "main".to_string(),
        node: OpNode::Root(vec![OpNode::Root(vec![])]),
    }]);
    assert_eq!(runtime.run_func_with_name("main".to_string()), Err(RuntimeError::Generic));
}

#[test]
fn increment_and_decrement_wrap_round() {
    let (runtime, res) = run_ops(vec![Op::Dec]);
    assert_eq!(res, Ok(()));
    assert_eq!(runtime.cell(0, 0), Some(u32::MAX));
    let (runtime, res) = run_ops(vec![Op::Dec, Op::Inc, Op::Inc]);
    assert_eq!(res, Ok(()));
    assert_eq!(runtime.cell(0, 0), Some(1));
}

#[test]
fn bitwise_not_turns_every_bit() {
    let (runtime, res) = run_ops(vec![Op::Inc, Op::Inc, Op::BitNot]);
    assert_eq!(res, Ok(()));
    assert_eq!(runtime.cell(0, 0), Some(0xFFFF_FFFD));
}

#[test]
fn intake_changes_nothing() {
    let (runtime, res) = run_ops(vec![Op::Inc, Op::Take]);
    assert_eq!(res, Ok(()));
    assert_eq!(runtime.cell(0, 0), Some(1));
    assert_eq!(runtime.cursor(0), Some(0));
    assert!(runtime.output().is_empty());
}

#[test]
fn pointer_right_is_checked_at_the_next_access() {
    let (runtime, res) =
        run_ops(vec![Op::PtrRight, Op::PtrRight, Op::PtrLeft, Op::PtrLeft, Op::Inc]);
    assert_eq!(res, Ok(()));
    assert_eq!(runtime.cell(0, 0), Some(1));
    let (runtime, res) = run_ops(vec![Op::PtrRight, Op::Inc]);
    assert_eq!(res, Err(RuntimeError::TapeIndexOutOfBounds(1, 1)));
    assert_eq!(runtime.cursor(0), Some(1));
    let (_, res) = run_ops(vec![Op::PtrRight, Op::PtrRight, Op::Dump]);
    assert_eq!(res, Err(RuntimeError::TapeIndexOutOfBounds(2, 1)));
    let (_, res) = run_ops(vec![Op::PtrRight, Op::Dec]);
    assert_eq!(res, Err(RuntimeError::TapeIndexOutOfBounds(1, 1)));
    let (_, res) = run_ops(vec![Op::PtrRight, Op::BitNot]);
    assert_eq!(res, Err(RuntimeError::TapeIndexOutOfBounds(1, 1)));
}

#[test]
fn pointer_left_at_the_first_cell_fails() {
    let (runtime, res) = run_ops(vec![Op::Inc, Op::PtrLeft, Op::Inc]);
    assert_eq!(res, Err(RuntimeError::TapeIndexCannotBeNegative));
    assert_eq!(runtime.cell(0, 0), Some(1));
}

#[test]
fn dump_writes_in_program_order() {
    let (runtime, res) = run_ops(vec![Op::Inc, Op::Dump, Op::Inc, Op::Dump, Op::Dec, Op::Dump]);
    assert_eq!(res, Ok(()));
    assert_eq!(runtime.output(), &vec![1, 2, 1]);
}

#[test]
fn literal_fills_cells_from_the_cursor() {
    let (runtime, res) = run_ops(vec![
        Op::PushNew(4),
        Op::PtrRight,
        Op::Literal("hé".to_string()),
    ]);
    assert_eq!(res, Ok(()));
    assert_eq!(runtime.cell(1, 0), Some(0));
    assert_eq!(runtime.cell(1, 1), Some('h' as u32));
    assert_eq!(runtime.cell(1, 2), Some(0xE9));
    assert_eq!(runtime.cell(1, 3), Some(0));
    assert_eq!(runtime.cursor(1), Some(1));
}

#[test]
fn literal_is_cut_at_the_end_of_the_tape() {
    let (runtime, res) = run_ops(vec![
        Op::PushNew(3),
        Op::PtrRight,
        Op::Literal("abcdef".to_string()),
    ]);
    assert_eq!(res, Ok(()));
    assert_eq!(runtime.cell(1, 0), Some(0));
    assert_eq!(runtime.cell(1, 1), Some(97));
    assert_eq!(runtime.cell(1, 2), Some(98));
    let (runtime, res) = run_ops(vec![Op::PtrRight, Op::Literal("abc".to_string())]);
    assert_eq!(res, Ok(()));
    assert_eq!(runtime.cell(0, 0), Some(0));
}

#[test]
fn push_new_tape_lands_on_the_tape_above() {
    let (runtime, res) = run_ops(vec![Op::PushNew(5)]);
    assert_eq!(res, Ok(()));
    assert_eq!(runtime.tape_count(), 2);
    assert_eq!(runtime.active_index(), 1);
    assert_eq!(runtime.cell(1, 4), Some(0));
    assert_eq!(runtime.cell(1, 5), None);
    // from the bottom, with two tapes above: the new tape goes on top and
    // the tape just above becomes active
    let (runtime, res) = run_ops(vec![
        Op::PushNew(2),
        Op::PopOp(StackOp::Default),
        Op::PushNew(7),
    ]);
    assert_eq!(res, Ok(()));
    assert_eq!(runtime.tape_count(), 3);
    assert_eq!(runtime.active_index(), 1);
    assert_eq!(runtime.cell(1, 1), Some(0));
    assert_eq!(runtime.cell(1, 2), None);
    assert_eq!(runtime.cell(2, 6), Some(0));
}

#[test]
fn zero_cell_tape_can_be_pushed() {
    let (runtime, res) = run_ops(vec![Op::PushNew(0), Op::Inc]);
    assert_eq!(res, Err(RuntimeError::TapeIndexOutOfBounds(0, 0)));
    assert_eq!(runtime.tape_count(), 2);
}

#[test]
fn push_without_tape_above_fails() {
    let (runtime, res) = run_ops(vec![Op::PushOp(StackOp::Default)]);
    assert_eq!(res, Err(RuntimeError::StackIndexOutOfBounds(1, 1)));
    assert_eq!(runtime.active_index(), 0);
    let (runtime, res) = run_ops(vec![Op::PushNew(1), Op::PushOp(StackOp::Default)]);
    assert_eq!(res, Err(RuntimeError::StackIndexOutOfBounds(2, 2)));
    assert_eq!(runtime.active_index(), 1);
    let (_, res) = run_ops(vec![Op::PushOp(StackOp::Add)]);
    assert_eq!(res, Err(RuntimeError::StackIndexOutOfBounds(1, 1)));
}

#[test]
fn pop_on_the_bottom_tape_fails() {
    for op in [Op::PopOp(StackOp::Default), Op::PopOp(StackOp::Add)] {
        let (runtime, res) = run_ops(vec![Op::Inc, op]);
        assert_eq!(res, Err(RuntimeError::StackIndexCannotBeNegative));
        assert_eq!(runtime.active_index(), 0);
        assert_eq!(runtime.tape_count(), 1);
        assert_eq!(runtime.cell(0, 0), Some(1));
    }
    for op in [Op::HardPopOp(StackOp::Default), Op::HardPopOp(StackOp::Mul)] {
        let (runtime, res) = run_ops(vec![Op::Inc, op]);
        assert_eq!(res, Err(RuntimeError::StackIndexCannotBeNegative));
        assert_eq!(runtime.active_index(), 0);
        assert_eq!(runtime.tape_count(), 1);
        assert_eq!(runtime.cell(0, 0), Some(1));
    }
}

#[test]
fn pop_after_push_returns_to_the_tape_below() {
    let (runtime, res) = run_ops(vec![
        Op::PushNew(1),
        Op::PopOp(StackOp::Default),
        Op::PushOp(StackOp::Default),
        Op::PopOp(StackOp::Default),
    ]);
    assert_eq!(res, Ok(()));
    assert_eq!(runtime.active_index(), 0);
    assert_eq!(runtime.tape_count(), 2);
}

#[test]
fn push_new_then_hard_pop_restores_index_and_count() {
    let (runtime, res) = run_ops(vec![Op::PushNew(9), Op::HardPopOp(StackOp::Default)]);
    assert_eq!(res, Ok(()));
    assert_eq!(runtime.active_index(), 0);
    assert_eq!(runtime.tape_count(), 1);
    // from the middle of the stack the tape that leaves is the one above the
    // old active tape, not the new one
    let (runtime, res) = run_ops(vec![
        Op::PushNew(2),
        Op::PopOp(StackOp::Default),
        Op::PushNew(7),
        Op::HardPopOp(StackOp::Default),
    ]);
    assert_eq!(res, Ok(()));
    assert_eq!(runtime.active_index(), 0);
    assert_eq!(runtime.tape_count(), 2);
    assert_eq!(runtime.cell(1, 6), Some(0));
}

/// Runs `carried` on tape 1 and `found` on tape 0 through a pop with `op`.
fn folded(op: StackOp, carried: u32, found: u32) -> (Runtime, Result<(), RuntimeError>) {
    let mut ops = Vec::new();
    for _ in 0..found {
        ops.push(Op::Inc);
    }
    ops.push(Op::PushNew(1));
    for _ in 0..carried {
        ops.push(Op::Inc);
    }
    ops.push(Op::PopOp(op));
    run_ops(ops)
}

#[test]
fn folds_of_two_cells() {
    let cases = [
        (StackOp::Assign, 7, 2, 7),
        (StackOp::Add, 7, 2, 9),
        (StackOp::Sub, 7, 2, 5),
        (StackOp::Sub, 2, 7, u32::MAX - 4),
        (StackOp::Mul, 7, 2, 14),
        (StackOp::Div, 7, 2, 3),
        (StackOp::Div, 2, 7, 0),
        (StackOp::BitAnd, 6, 3, 2),
        (StackOp::BitOr, 6, 3, 7),
        (StackOp::BitXor, 6, 3, 5),
    ];
    for (op, carried, found, expected) in cases {
        let (runtime, res) = folded(op, carried, found);
        assert_eq!(res, Ok(()));
        assert_eq!(runtime.active_index(), 0);
        assert_eq!(runtime.tape_count(), 2);
        assert_eq!(runtime.cell(0, 0), Some(expected));
        assert_eq!(runtime.cell(1, 0), Some(carried));
    }
}

#[test]
fn sums_and_products_wrap_round() {
    // tape 1 holds the largest value, tape 0 holds 2
    let prefix = vec![Op::Inc, Op::Inc, Op::PushNew(1), Op::Dec];
    let mut ops = prefix.clone();
    ops.push(Op::PopOp(StackOp::Add));
    let (runtime, res) = run_ops(ops);
    assert_eq!(res, Ok(()));
    assert_eq!(runtime.cell(0, 0), Some(1));
    let mut ops = prefix;
    ops.push(Op::PopOp(StackOp::Mul));
    let (runtime, res) = run_ops(ops);
    assert_eq!(res, Ok(()));
    assert_eq!(runtime.cell(0, 0), Some(u32::MAX - 1));
}

#[test]
fn quotient_by_zero_fails_and_changes_nothing() {
    let (runtime, res) = folded(StackOp::Div, 7, 0);
    assert_eq!(res, Err(RuntimeError::DivisionByZero));
    assert_eq!(runtime.active_index(), 1);
    assert_eq!(runtime.cell(0, 0), Some(0));
    assert_eq!(runtime.cell(1, 0), Some(7));
    let (runtime, res) = run_ops(vec![Op::PushNew(1), Op::Inc, Op::HardPopOp(StackOp::Div)]);
    assert_eq!(res, Err(RuntimeError::DivisionByZero));
    assert_eq!(runtime.tape_count(), 2);
    assert_eq!(runtime.active_index(), 1);
}

#[test]
fn push_with_fold_writes_above_and_stays() {
    let (runtime, res) = run_ops(vec![
        Op::PushNew(1),
        Op::Inc,
        Op::Inc,
        Op::PopOp(StackOp::Default),
        Op::Inc,
        Op::Inc,
        Op::Inc,
        Op::Inc,
        Op::Inc,
        Op::PushOp(StackOp::Sub),
    ]);
    assert_eq!(res, Ok(()));
    assert_eq!(runtime.active_index(), 0);
    assert_eq!(runtime.cell(0, 0), Some(5));
    assert_eq!(runtime.cell(1, 0), Some(3));
}

#[test]
fn hard_pop_with_fold_removes_the_tape() {
    let (runtime, res) = run_ops(vec![
        Op::Inc,
        Op::PushNew(1),
        Op::Inc,
        Op::Inc,
        Op::PushNew(1),
        Op::PopOp(StackOp::Default),
        Op::HardPopOp(StackOp::Add),
    ]);
    assert_eq!(res, Ok(()));
    assert_eq!(runtime.tape_count(), 2);
    assert_eq!(runtime.active_index(), 0);
    assert_eq!(runtime.cell(0, 0), Some(3));
    assert_eq!(runtime.cell(1, 0), Some(0));
}

#[test]
fn fold_needs_a_cell_on_both_tapes() {
    let (runtime, res) = run_ops(vec![Op::PushNew(0), Op::PopOp(StackOp::Add)]);
    assert_eq!(res, Err(RuntimeError::TapeIndexOutOfBounds(0, 0)));
    assert_eq!(runtime.active_index(), 1);
    let (runtime, res) = run_ops(vec![Op::PtrRight, Op::PushNew(1), Op::PopOp(StackOp::Add)]);
    assert_eq!(res, Err(RuntimeError::TapeIndexOutOfBounds(1, 1)));
    assert_eq!(runtime.active_index(), 1);
}

#[test]
fn loop_on_zero_cell_runs_no_round() {
    let (runtime, res) = run_source("@main { [+.] }");
    assert_eq!(res, Ok(()));
    assert_eq!(runtime.cell(0, 0), Some(0));
    assert!(runtime.output().is_empty());
}

#[test]
fn loop_tests_the_cell_before_every_round() {
    let (runtime, res) = run_source("@main { +++ [.-] }");
    assert_eq!(res, Ok(()));
    assert_eq!(runtime.output(), &vec![3, 2, 1]);
    assert_eq!(runtime.cell(0, 0), Some(0));
}

#[test]
fn loop_tests_the_tape_that_is_active_then() {
    // the round leaves the new tape active, whose cell is zero
    let (runtime, res) = run_source("@main { + [ ^3 ] . }");
    assert_eq!(res, Ok(()));
    assert_eq!(runtime.active_index(), 1);
    assert_eq!(runtime.output(), &vec![0]);
}

#[test]
fn failing_node_ends_the_loop() {
    let (runtime, res) = run_source("@main { ++ [ . - < . ] . }");
    assert_eq!(res, Err(RuntimeError::TapeIndexCannotBeNegative));
    assert_eq!(runtime.output(), &vec![2]);
    assert_eq!(runtime.cell(0, 0), Some(1));
}

#[test]
fn loop_with_cursor_beyond_the_tape_fails() {
    let (_, res) = run_source("@main { > [ + ] }");
    assert_eq!(res, Err(RuntimeError::TapeIndexOutOfBounds(1, 1)));
}

#[test]
fn calls_run_the_named_function() {
    let (runtime, res) = run_source("@two { ++ } @main { @two @two . }");
    assert_eq!(res, Ok(()));
    assert_eq!(runtime.output(), &vec![4]);
    let (_, res) = run_source("@main { + @nowhere . }");
    assert_eq!(res, Err(RuntimeError::FunctionNotDefined("nowhere".to_string())));
}

#[test]
fn endless_loop_runs_out_of_fuel() {
    let funcs = parse("@main { + [ . ] }".to_string()).unwrap();
    let mut runtime = Runtime::new(funcs).with_limit(3);
    assert_eq!(runtime.run_func_with_name("main".to_string()), Err(RuntimeError::FuelExhausted));
    assert_eq!(runtime.output(), &vec![1, 1, 1]);
}

#[test]
fn endless_recursion_runs_out_of_fuel() {
    let funcs = parse("@main { + @main }".to_string()).unwrap();
    let mut runtime = Runtime::new(funcs).with_limit(4);
    assert_eq!(runtime.run_func_with_name("main".to_string()), Err(RuntimeError::FuelExhausted));
    assert_eq!(runtime.cell(0, 0), Some(5));
    let funcs = parse("@main { + }".to_string()).unwrap();
    let mut runtime = Runtime::new(funcs).with_limit(0);
    assert_eq!(runtime.run_func_with_name("main".to_string()), Ok(()));
}

#[test]
fn runtime_can_run_again_after_an_error() {
    let mut runtime = runtime_of(vec![Op::Inc, Op::PopOp(StackOp::Default)]);
    assert_eq!(
        runtime.run_func_with_name("main".to_string()),
        Err(RuntimeError::StackIndexCannotBeNegative)
    );
    assert_eq!(
        runtime.run_func_with_name("main".to_string()),
        Err(RuntimeError::StackIndexCannotBeNegative)
    );
    assert_eq!(runtime.cell(0, 0), Some(2));
    assert_eq!(
        runtime.run_func_with_name("none".to_string()),
        Err(RuntimeError::FunctionNotDefined("none".to_string()))
    );
}
