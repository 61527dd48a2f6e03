use migraine::parse::cursor::Cursor;
use migraine::parse::err::{FilePos, ParserError};
use migraine::parse::lexer::{parse_decimal, Lexer, Op, StackOp, Token};

fn lexed(src: &str) -> Result<Vec<(Token, FilePos)>, ParserError> {
    Lexer::new(Box::new(src.to_string())).tokenize()
}

fn tokens(src: &str) -> Vec<Token> {
    lexed(src).unwrap().into_iter().map(|(tok, _)| tok).collect()
}

fn at(line: usize, column: usize) -> FilePos {
    FilePos { line, column }
}

#[test]
fn empty_text_has_no_tokens() {
    assert_eq!(lexed(""), Ok(vec![]));
    assert_eq!(lexed(" \n\t "), Ok(vec![]));
}

#[test]
fn single_character_operations() {
    assert_eq!(
        tokens(".,><+-~"),
        vec![
            Token::Op(Op::Dump),
            Token::Op(Op::Take),
            Token::Op(Op::PtrRight),
            Token::Op(Op::PtrLeft),
            Token::Op(Op::Inc),
            Token::Op(Op::Dec),
            Token::Op(Op::BitNot),
        ]
    );
}

#[test]
fn blocks_and_loops() {
    assert_eq!(
        tokens("{[]}"),
        vec![Token::FunctionDefine, Token::LoopStart, Token::LoopEnd, Token::FunctionEnd]
    );
}

#[test]
fn function_name_runs_to_white_space() {
    assert_eq!(
        tokens("@main {"),
        vec![Token::FunctionCall("main".to_string()), Token::FunctionDefine]
    );
    assert_eq!(tokens("@ "), vec![Token::FunctionCall(String::new())]);
    assert_eq!(tokens("@a+b\n+"), vec![Token::FunctionCall("a+b".to_string()), Token::Op(Op::Inc)]);
}

#[test]
fn function_name_without_white_space_is_an_error() {
    assert_eq!(lexed("@main"), Err(ParserError::FunctionMustEndWithWhitespace(at(1, 5))));
}

#[test]
fn leftover_macro_marker_is_an_error() {
    assert_eq!(lexed("+ $x!"), Err(ParserError::MacroNotDefined(at(1, 3))));
}

#[test]
fn line_comment_is_skipped() {
    assert_eq!(tokens("+ // - - \n+"), vec![Token::Op(Op::Inc), Token::Op(Op::Inc)]);
    assert_eq!(tokens("+//"), vec![Token::Op(Op::Inc)]);
}

#[test]
fn single_slash_is_an_error() {
    assert_eq!(lexed("+/+"), Err(ParserError::IllegalCharacter('/', at(1, 3))));
    assert_eq!(lexed("/"), Err(ParserError::IllegalCharacter('/', at(1, 1))));
}

#[test]
fn unknown_character_is_an_error() {
    assert_eq!(lexed("+\n x"), Err(ParserError::IllegalCharacter('x', at(2, 3))));
    assert_eq!(lexed("5"), Err(ParserError::IllegalCharacter('5', at(1, 1))));
}

#[test]
fn literal_with_escapes() {
    assert_eq!(
        tokens("\"a\\n\\t\\0\\\\\\\"\\z\""),
        vec![Token::Op(Op::Literal("a\n\t\0\\\"z".to_string()))]
    );
    assert_eq!(tokens("\"\""), vec![Token::Op(Op::Literal(String::new()))]);
    assert_eq!(
        tokens("\"@ { $\"+"),
        vec![Token::Op(Op::Literal("@ { $".to_string())), Token::Op(Op::Inc)]
    );
}

#[test]
fn unterminated_literal_is_an_error() {
    assert_eq!(lexed("\"abc"), Err(ParserError::LiteralNotEnded(at(1, 4))));
    assert_eq!(lexed("\"abc\\"), Err(ParserError::LiteralNotEnded(at(1, 5))));
    assert_eq!(lexed("\"a\\\""), Err(ParserError::LiteralNotEnded(at(1, 4))));
}

#[test]
fn stack_operations_with_folds() {
    let folds = [
        ('+', StackOp::Add),
        ('-', StackOp::Sub),
        ('*', StackOp::Mul),
        ('/', StackOp::Div),
        ('=', StackOp::Assign),
        ('&', StackOp::BitAnd),
        ('|', StackOp::BitOr),
        ('^', StackOp::BitXor),
    ];
    for (c, op) in folds {
        assert_eq!(tokens(&format!("_{}", c)), vec![Token::Op(Op::PopOp(op))]);
        assert_eq!(tokens(&format!("&{}", c)), vec![Token::Op(Op::HardPopOp(op))]);
        assert_eq!(tokens(&format!("^{}", c)), vec![Token::Op(Op::PushOp(op))]);
    }
}

#[test]
fn stack_operation_without_fold_leaves_next_character() {
    assert_eq!(tokens("_"), vec![Token::Op(Op::PopOp(StackOp::Default))]);
    assert_eq!(tokens("&"), vec![Token::Op(Op::HardPopOp(StackOp::Default))]);
    assert_eq!(tokens("^"), vec![Token::Op(Op::PushOp(StackOp::Default))]);
    assert_eq!(
        tokens("_>"),
        vec![Token::Op(Op::PopOp(StackOp::Default)), Token::Op(Op::PtrRight)]
    );
    assert_eq!(
        tokens("^ +"),
        vec![Token::Op(Op::PushOp(StackOp::Default)), Token::Op(Op::Inc)]
    );
    assert_eq!(
        tokens("__"),
        vec![Token::Op(Op::PopOp(StackOp::Default)), Token::Op(Op::PopOp(StackOp::Default))]
    );
}

#[test]
fn digits_after_push_give_a_tape_size() {
    assert_eq!(tokens("^5"), vec![Token::Op(Op::PushNew(5))]);
    assert_eq!(tokens("^0012+"), vec![Token::Op(Op::PushNew(12)), Token::Op(Op::Inc)]);
    assert_eq!(lexed("^420 69"), Err(ParserError::IllegalCharacter('6', at(1, 6))));
}

#[test]
fn digits_after_pop_are_no_tape_size() {
    assert_eq!(lexed("_5"), Err(ParserError::IllegalCharacter('5', at(1, 2))));
    assert_eq!(lexed("&5"), Err(ParserError::IllegalCharacter('5', at(1, 2))));
}

#[test]
fn tape_size_beyond_machine_word_is_an_error() {
    assert_eq!(lexed("^99999999999999999999999999999999999999999"), Err(ParserError::Generic));
}

#[test]
fn decimal_values() {
    assert_eq!(parse_decimal(""), Some(0));
    assert_eq!(parse_decimal("0"), Some(0));
    assert_eq!(parse_decimal("42069"), Some(42069));
    assert_eq!(parse_decimal(&usize::MAX.to_string()), Some(usize::MAX));
    assert_eq!(parse_decimal(&format!("{}0", usize::MAX)), None);
    assert_eq!(parse_decimal("340282366920938463463374607431768211456"), None);
}

#[test]
fn tokens_carry_the_position_of_their_first_character() {
    assert_eq!(
        lexed("@f {\n  +\"a\nb\" ^12 _+\n}"),
        Ok(vec![
            (Token::FunctionCall("f".to_string()), at(1, 1)),
            (Token::FunctionDefine, at(1, 4)),
            (Token::Op(Op::Inc), at(2, 4)),
            (Token::Op(Op::Literal("a\nb".to_string())), at(2, 5)),
            (Token::Op(Op::PushNew(12)), at(3, 5)),
            (Token::Op(Op::PopOp(StackOp::Add)), at(3, 9)),
            (Token::FunctionEnd, at(4, 2)),
        ])
    );
}

#[test]
fn lexing_twice_gives_the_same_tokens() {
    let src = "@main { ^5 +++ \"hi\" _+ [->+<] } // done";
    assert_eq!(lexed(src), lexed(src));
    let src = "@main { \"open";
    assert_eq!(lexed(src), lexed(src));
}

#[test]
fn advancing_and_regressing_restores_the_lexer() {
    let mut lexer = Lexer::new(Box::new("_\n>".to_string()));
    lexer.advance();
    lexer.advance();
    lexer.regress();
    lexer.regress();
    assert_eq!(
        lexer.tokenize(),
        Ok(vec![
            (Token::Op(Op::PopOp(StackOp::Default)), at(1, 1)),
            (Token::Op(Op::PtrRight), at(2, 2)),
        ])
    );
}

#[test]
fn op_emits_and_moves_on() {
    let mut lexer = Lexer::new(Box::new("x+".to_string()));
    lexer.op(Op::Dump);
    assert_eq!(
        lexer.tokenize(),
        Ok(vec![(Token::Op(Op::Dump), at(1, 1)), (Token::Op(Op::Inc), at(1, 2))])
    );
}

#[test]
fn given_marks_decide_what_is_skipped() {
    let lexer = Lexer::with_spaces(Box::new("+x+".to_string()), vec![false, true, false]);
    assert_eq!(
        lexer.tokenize(),
        Ok(vec![(Token::Op(Op::Inc), at(1, 1)), (Token::Op(Op::Inc), at(1, 3))])
    );
    // an unmarked blank is a character like any other
    let lexer = Lexer::with_spaces(Box::new("+ +".to_string()), vec![false, false, false]);
    assert_eq!(lexer.tokenize(), Err(ParserError::IllegalCharacter(' ', at(1, 2))));
}

#[test]
fn given_marks_end_a_function_name() {
    let marks = vec![false, false, true, false, false];
    let lexer = Lexer::with_spaces(Box::new("@a.b ".to_string()), marks);
    assert_eq!(
        lexer.tokenize(),
        Err(ParserError::IllegalCharacter('b', at(1, 4)))
    );
    let lexer = Lexer::with_spaces(Box::new("@a.+".to_string()), vec![false, false, true, false]);
    assert_eq!(
        lexer.tokenize(),
        Ok(vec![(Token::FunctionCall("a".to_string()), at(1, 1)), (Token::Op(Op::Inc), at(1, 4))])
    );
}

#[test]
fn position_starts_at_line_one_column_one() {
    assert_eq!(FilePos::new(), at(1, 1));
}

#[test]
fn position_moves_with_the_character_arrived_at() {
    let mut pos = FilePos::new();
    pos.advance(Some('a'));
    assert_eq!(pos, at(1, 2));
    pos.advance(Some('\n'));
    assert_eq!(pos, at(2, 1));
    pos.advance(Some(' '));
    assert_eq!(pos, at(2, 2));
    pos.advance(None);
    assert_eq!(pos, at(2, 2));
}

#[test]
fn cursor_walks_forth_and_back() {
    let mut cur = Cursor::new("a\nb ".to_string());
    assert_eq!((cur.idx, cur.next, cur.file_pos), (0, Some('a'), at(1, 1)));
    assert!(!cur.at_space());
    cur.advance();
    assert_eq!((cur.idx, cur.next, cur.file_pos), (1, Some('\n'), at(2, 1)));
    assert!(cur.at_space());
    cur.advance();
    assert_eq!((cur.idx, cur.next, cur.file_pos), (2, Some('b'), at(2, 2)));
    cur.advance();
    cur.advance();
    assert_eq!((cur.idx, cur.next, cur.file_pos), (4, None, at(2, 3)));
    cur.advance();
    assert_eq!((cur.idx, cur.next, cur.file_pos), (5, None, at(2, 3)));
    cur.regress();
    cur.regress();
    assert_eq!((cur.idx, cur.next, cur.file_pos), (3, Some(' '), at(2, 3)));
    cur.regress();
    cur.regress();
    assert_eq!((cur.idx, cur.next, cur.file_pos), (1, Some('\n'), at(2, 1)));
    cur.regress();
    assert_eq!((cur.idx, cur.next, cur.file_pos), (0, Some('a'), at(1, 1)));
}

#[test]
fn cursor_takes_given_marks() {
    let cur = Cursor::with_spaces("ab".to_string(), vec![true, false]);
    assert!(cur.at_space());
    assert_eq!(cur.spaces, vec![true, false]);
    assert_eq!(cur.len, 2);
}
