use migraine::intepreter::Runtime;
use migraine::parse::err::{FilePos, ParserError};
use migraine::parse::lexer::{Lexer, Op, Token};
use migraine::parse::parse;
use migraine::parse::preproc::process;

#[test]
fn three_increments_and_a_dump_write_code_point_three() {
    let funcs = parse("@main { +++. }".to_string()).unwrap();
    let mut runtime = Runtime::new(funcs);
    assert_eq!(runtime.run_func_with_name("main".to_string()), Ok(()));
    assert_eq!(runtime.output(), &vec![3]);
}

#[test]
fn pop_with_add_folds_the_new_tape_into_the_bottom_tape() {
    let funcs = parse("@main { ^5 +++ _+ }".to_string()).unwrap();
    let mut runtime = Runtime::new(funcs);
    assert_eq!(runtime.run_func_with_name("main".to_string()), Ok(()));
    assert_eq!(runtime.tape_count(), 2);
    for index in 0..5 {
        assert_eq!(runtime.cell(1, index), Some(if index == 0 { 3 } else { 0 }));
    }
    assert_eq!(runtime.cell(1, 5), None);
    assert_eq!(runtime.cell(0, 0), Some(3));
    assert_eq!(runtime.active_index(), 0);
}

#[test]
fn unclosed_loop_fails_parsing() {
    assert_eq!(
        parse("@main { [+++ }".to_string()),
        Err(ParserError::LoopNotEnded(FilePos { line: 1, column: 9 }))
    );
}

#[test]
fn macro_is_substituted_before_lexing() {
    let src = "macrodef greet Hi macroend\n@main { \"$greet!\" }";
    let processed = process(src.to_string()).unwrap();
    let tokens: Vec<Token> =
        Lexer::new(processed).tokenize().unwrap().into_iter().map(|(tok, _)| tok).collect();
    assert_eq!(
        tokens,
        vec![
            Token::FunctionCall("main".to_string()),
            Token::FunctionDefine,
            Token::Op(Op::Literal("Hi".to_string())),
            Token::FunctionEnd,
        ]
    );
}

#[test]
fn literal_from_a_macro_reaches_the_output() {
    let src = "macrodef greet Hi macroend\n@main { ^2 \"$greet!\" . > . }";
    let mut runtime = Runtime::new(parse(src.to_string()).unwrap());
    assert_eq!(runtime.run_func_with_name("main".to_string()), Ok(()));
    assert_eq!(runtime.output(), &vec!['H' as u32, 'i' as u32]);
}
