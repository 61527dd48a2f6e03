//! From text to tokens.

use vstd::prelude::*;
use vstd::string::*;
use super::cursor::{char_at, pos_at, Cursor};
use super::err::{FilePos, ParserError, ParserErrorView};
use super::text::{white_space_mask, TextBuf};

verus! {

/// How a stack operation folds the value it carries into the cell it lands on.
#[derive(Debug, Clone, Copy, PartialEq, Eq, Structural)]
pub enum StackOp {
    Default,
    Assign,
    Add,
    Sub,
    Mul,
    Div,
    // Bitwise
    BitAnd,
    BitOr,
    BitXor,
}

/// What a function's body can do to the tapes and the stack.
#[derive(Debug, PartialEq, Eq)]
pub enum Op {
    Inc,
    Dec,
    Dump,
    Take,
    Literal(String),
    PtrRight,
    PtrLeft,
    BitNot,
    // Stack Operations
    PushNew(usize),
    PushOp(StackOp),
    PopOp(StackOp),
    HardPopOp(StackOp),
}

/// An [`Op`] with its text as a sequence of characters.
pub ghost enum OpView {
    Inc,
    Dec,
    Dump,
    Take,
    Literal(Seq<char>),
    PtrRight,
    PtrLeft,
    BitNot,
    PushNew(usize),
    PushOp(StackOp),
    PopOp(StackOp),
    HardPopOp(StackOp),
}

impl View for Op {
    type V = OpView;

    open spec fn view(&self) -> OpView {
        match self {
            Op::Inc => OpView::Inc,
            Op::Dec => OpView::Dec,
            Op::Dump => OpView::Dump,
            Op::Take => OpView::Take,
            Op::Literal(text) => OpView::Literal(text@),
            Op::PtrRight => OpView::PtrRight,
            Op::PtrLeft => OpView::PtrLeft,
            Op::BitNot => OpView::BitNot,
            Op::PushNew(size) => OpView::PushNew(*size),
            Op::PushOp(op) => OpView::PushOp(*op),
            Op::PopOp(op) => OpView::PopOp(*op),
            Op::HardPopOp(op) => OpView::HardPopOp(*op),
        }
    }
}

impl Clone for Op {
    fn clone(&self) -> (res: Self)
        ensures
            res@ == self@,
    {
        match self {
            Op::Inc => Op::Inc,
            Op::Dec => Op::Dec,
            Op::Dump => Op::Dump,
            Op::Take => Op::Take,
            Op::Literal(text) => Op::Literal(text.clone()),
            Op::PtrRight => Op::PtrRight,
            Op::PtrLeft => Op::PtrLeft,
            Op::BitNot => Op::BitNot,
            Op::PushNew(size) => Op::PushNew(*size),
            Op::PushOp(op) => Op::PushOp(*op),
            Op::PopOp(op) => Op::PopOp(*op),
            Op::HardPopOp(op) => Op::HardPopOp(*op),
        }
    }
}

/// The units that the lexer cuts a text into.
#[derive(Debug, PartialEq, Eq)]
pub enum Token {
    Op(Op),
    LoopStart,
    LoopEnd,
    FunctionCall(String),
    FunctionDefine,
    FunctionEnd,
}

/// A [`Token`] with its text as a sequence of characters.
pub ghost enum TokenView {
    Op(OpView),
    LoopStart,
    LoopEnd,
    FunctionCall(Seq<char>),
    FunctionDefine,
    FunctionEnd,
}

impl View for Token {
    type V = TokenView;

    open spec fn view(&self) -> TokenView {
        match self {
            Token::Op(op) => TokenView::Op(op@),
            Token::LoopStart => TokenView::LoopStart,
            Token::LoopEnd => TokenView::LoopEnd,
            Token::FunctionCall(name) => TokenView::FunctionCall(name@),
            Token::FunctionDefine => TokenView::FunctionDefine,
            Token::FunctionEnd => TokenView::FunctionEnd,
        }
    }
}

impl Clone for Token {
    fn clone(&self) -> (res: Self)
        ensures
            res@ == self@,
    {
        match self {
            Token::Op(op) => Token::Op(op.clone()),
            Token::LoopStart => Token::LoopStart,
            Token::LoopEnd => Token::LoopEnd,
            Token::FunctionCall(name) => Token::FunctionCall(name.clone()),
            Token::FunctionDefine => Token::FunctionDefine,
            Token::FunctionEnd => Token::FunctionEnd,
        }
    }
}

/// Which of the three stack operations a prefix character opens.
#[derive(Debug, Clone, Copy, PartialEq, Eq, Structural)]
pub enum StackType {
    Pop,
    Push,
    HardPop,
}

/// A property of characters at which a run of text ends.
pub ghost enum CharClass {
    LineFeed,
    NonDigit,
}

/// `c` is one of the ten decimal digits.
pub open spec fn is_digit(c: char) -> bool {
    '0' <= c <= '9'
}

/// `c` has the property `class`.
pub open spec fn in_class(class: CharClass, c: char) -> bool {
    match class {
        CharClass::LineFeed => c == '\n',
        CharClass::NonDigit => !is_digit(c),
    }
}

/// The first index at or after `from` whose character is in `class`; the
/// length of `src` where there is none.
pub open spec fn find_first(src: Seq<char>, from: int, class: CharClass) -> int
    decreases src.len() - from,
{
    if from < 0 || from >= src.len() {
        src.len() as int
    } else if in_class(class, src[from]) {
        from
    } else {
        find_first(src, from + 1, class)
    }
}

/// A search ends at or after the index it began at, and within the text.
pub proof fn lemma_find_first_bounds(src: Seq<char>, from: int, class: CharClass)
    requires
        0 <= from <= src.len(),
    ensures
        from <= find_first(src, from, class) <= src.len(),
    decreases src.len() - from,
{
    if from < src.len() && !in_class(class, src[from]) {
        lemma_find_first_bounds(src, from + 1, class);
    }
}

/// The first index at or after `from` that `spaces` marks; the length of
/// `spaces` where there is none.
pub open spec fn find_space(spaces: Seq<bool>, from: int) -> int
    decreases spaces.len() - from,
{
    if from < 0 || from >= spaces.len() {
        spaces.len() as int
    } else if spaces[from] {
        from
    } else {
        find_space(spaces, from + 1)
    }
}

/// A search ends at or after the index it began at, and within the marks.
pub proof fn lemma_find_space_bounds(spaces: Seq<bool>, from: int)
    requires
        0 <= from <= spaces.len(),
    ensures
        from <= find_space(spaces, from) <= spaces.len(),
    decreases spaces.len() - from,
{
    if from < spaces.len() && !spaces[from] {
        lemma_find_space_bounds(spaces, from + 1);
    }
}

/// The value of a decimal digit, and 0 for any other character.
pub open spec fn digit_value(c: char) -> nat {
    if is_digit(c) {
        (c as int - '0' as int) as nat
    } else {
        0
    }
}

/// The number that a run of decimal digits writes.
pub open spec fn decimal_value(digits: Seq<char>) -> nat
    decreases digits.len(),
{
    if digits.len() == 0 {
        0
    } else {
        decimal_value(digits.drop_last()) * 10 + digit_value(digits.last())
    }
}

/// The character that stands behind a backslash in a literal.
pub open spec fn unescape(c: char) -> char {
    if c == 'n' {
        '\n'
    } else if c == 't' {
        '\t'
    } else if c == '0' {
        '\0'
    } else {
        c
    }
}

/// The fold that the character after a stack prefix selects, if it selects
/// one.
pub open spec fn combine_of(c: char) -> Option<StackOp> {
    if c == '+' {
        Some(StackOp::Add)
    } else if c == '-' {
        Some(StackOp::Sub)
    } else if c == '*' {
        Some(StackOp::Mul)
    } else if c == '/' {
        Some(StackOp::Div)
    } else if c == '=' {
        Some(StackOp::Assign)
    } else if c == '&' {
        Some(StackOp::BitAnd)
    } else if c == '|' {
        Some(StackOp::BitOr)
    } else if c == '^' {
        Some(StackOp::BitXor)
    } else {
        None
    }
}

/// The token of stack operation `stack` with fold `op`.
pub open spec fn stack_token(stack: StackType, op: StackOp) -> TokenView {
    TokenView::Op(
        match stack {
            StackType::Pop => OpView::PopOp(op),
            StackType::HardPop => OpView::HardPopOp(op),
            StackType::Push => OpView::PushOp(op),
        },
    )
}

/// Reads a literal's body from index `i` on: the decoded text and the index
/// of the closing quote, or nothing where the text ends before the quote.
pub open spec fn scan_literal(src: Seq<char>, i: int) -> Option<(Seq<char>, int)>
    decreases src.len() - i,
{
    if i < 0 || i >= src.len() {
        None
    } else if src[i] == '\\' {
        if i + 1 >= src.len() {
            None
        } else {
            match scan_literal(src, i + 2) {
                Some((text, close)) => Some((seq![unescape(src[i + 1])] + text, close)),
                None => None,
            }
        }
    } else if src[i] == '"' {
        Some((Seq::empty(), i))
    } else {
        match scan_literal(src, i + 1) {
            Some((text, close)) => Some((seq![src[i]] + text, close)),
            None => None,
        }
    }
}

/// The closing quote of a literal stands at or after the index its body
/// began at, and within the text.
pub proof fn lemma_scan_literal_bounds(src: Seq<char>, i: int)
    requires
        0 <= i,
    ensures
        scan_literal(src, i) matches Some((_, close)) ==> i <= close < src.len(),
    decreases src.len() - i,
{
    if i < src.len() {
        if src[i] == '\\' {
            if i + 1 < src.len() {
                lemma_scan_literal_bounds(src, i + 2);
            }
        } else if src[i] != '"' {
            lemma_scan_literal_bounds(src, i + 1);
        }
    }
}

/// What the lexer makes of the text at one index.
pub ghost enum Scan {
    /// A token, and the index at which the scan goes on.
    Token { token: TokenView, next: int },
    /// Text that yields no token, and the index at which the scan goes on.
    Skip { next: int },
    Fail { error: ParserErrorView },
}

/// `@name` followed by a character that `spaces` marks.
pub open spec fn scan_function_call(src: Seq<char>, spaces: Seq<bool>, idx: int) -> Scan {
    let end = find_space(spaces, idx + 1);
    if end >= src.len() {
        Scan::Fail {
            error: ParserErrorView::FunctionMustEndWithWhitespace(pos_at(src, src.len() as int)),
        }
    } else {
        Scan::Token { token: TokenView::FunctionCall(src.subrange(idx + 1, end)), next: end + 1 }
    }
}

/// `//` and the rest of its line; a single `/` is no token.
pub open spec fn scan_comment(src: Seq<char>, idx: int) -> Scan {
    if char_at(src, idx + 1) == Some('/') {
        Scan::Skip { next: find_first(src, idx + 1, CharClass::LineFeed) }
    } else {
        Scan::Fail { error: ParserErrorView::IllegalCharacter('/', pos_at(src, idx + 1)) }
    }
}

/// A quoted literal with its escapes.
pub open spec fn scan_str_literal(src: Seq<char>, idx: int) -> Scan {
    match scan_literal(src, idx + 1) {
        Some((text, close)) => Scan::Token {
            token: TokenView::Op(OpView::Literal(text)),
            next: close + 1,
        },
        None => Scan::Fail {
            error: ParserErrorView::LiteralNotEnded(pos_at(src, src.len() as int)),
        },
    }
}

/// A stack prefix with what follows it: digits after a push give the size of
/// a new tape, one of the eight fold characters selects a fold, and anything
/// else is left for the next token.
pub open spec fn scan_stack_op(src: Seq<char>, idx: int, stack: StackType) -> Scan {
    match char_at(src, idx + 1) {
        None => Scan::Token { token: stack_token(stack, StackOp::Default), next: idx + 1 },
        Some(c) => if stack == StackType::Push && is_digit(c) {
            let end = find_first(src, idx + 1, CharClass::NonDigit);
            let size = decimal_value(src.subrange(idx + 1, end));
            if size <= usize::MAX {
                Scan::Token { token: TokenView::Op(OpView::PushNew(size as usize)), next: end }
            } else {
                Scan::Fail { error: ParserErrorView::Generic }
            }
        } else {
            match combine_of(c) {
                Some(op) => Scan::Token { token: stack_token(stack, op), next: idx + 2 },
                None => Scan::Token { token: stack_token(stack, StackOp::Default), next: idx + 1 },
            }
        },
    }
}

/// What stands at index `idx`, which holds a character that `spaces` does
/// not mark.
pub open spec fn scan_at(src: Seq<char>, spaces: Seq<bool>, idx: int) -> Scan {
    let c = src[idx];
    let one = |token: TokenView| Scan::Token { token, next: idx + 1 };
    if c == '$' {
        Scan::Fail { error: ParserErrorView::MacroNotDefined(pos_at(src, idx)) }
    } else if c == '@' {
        scan_function_call(src, spaces, idx)
    } else if c == '{' {
        one(TokenView::FunctionDefine)
    } else if c == '}' {
        one(TokenView::FunctionEnd)
    } else if c == '[' {
        one(TokenView::LoopStart)
    } else if c == ']' {
        one(TokenView::LoopEnd)
    } else if c == '/' {
        scan_comment(src, idx)
    } else if c == '.' {
        one(TokenView::Op(OpView::Dump))
    } else if c == ',' {
        one(TokenView::Op(OpView::Take))
    } else if c == '>' {
        one(TokenView::Op(OpView::PtrRight))
    } else if c == '<' {
        one(TokenView::Op(OpView::PtrLeft))
    } else if c == '+' {
        one(TokenView::Op(OpView::Inc))
    } else if c == '-' {
        one(TokenView::Op(OpView::Dec))
    } else if c == '~' {
        one(TokenView::Op(OpView::BitNot))
    } else if c == '"' {
        scan_str_literal(src, idx)
    } else if c == '_' {
        scan_stack_op(src, idx, StackType::Pop)
    } else if c == '&' {
        scan_stack_op(src, idx, StackType::HardPop)
    } else if c == '^' {
        scan_stack_op(src, idx, StackType::Push)
    } else {
        Scan::Fail { error: ParserErrorView::IllegalCharacter(c, pos_at(src, idx)) }
    }
}

/// Every scan that goes on does so beyond the index it started from, and
/// within the text.
pub proof fn lemma_scan_at_advances(src: Seq<char>, spaces: Seq<bool>, idx: int)
    requires
        0 <= idx < src.len(),
        spaces.len() == src.len(),
    ensures
        scan_at(src, spaces, idx) matches Scan::Token { next, .. } ==> idx < next <= src.len(),
        scan_at(src, spaces, idx) matches Scan::Skip { next } ==> idx < next <= src.len(),
{
    lemma_find_space_bounds(spaces, idx + 1);
    lemma_find_first_bounds(src, idx + 1, CharClass::NonDigit);
    lemma_find_first_bounds(src, idx + 1, CharClass::LineFeed);
    lemma_scan_literal_bounds(src, idx + 1);
}

/// The tokens of `src` from index `idx` on, each with the position of its
/// first character, or the first error. `spaces` marks the characters of
/// `src` that are white space, index by index.
pub open spec fn lex_from(src: Seq<char>, spaces: Seq<bool>, idx: int) -> Result<
    Seq<(TokenView, FilePos)>,
    ParserErrorView,
>
    recommends
        spaces.len() == src.len(),
    decreases src.len() - idx,
{
    if idx < 0 || idx >= src.len() || spaces.len() != src.len() {
        Ok(Seq::empty())
    } else if spaces[idx] {
        lex_from(src, spaces, idx + 1)
    } else {
        proof {
            lemma_scan_at_advances(src, spaces, idx);
        }
        match scan_at(src, spaces, idx) {
            Scan::Fail { error } => Err(error),
            Scan::Skip { next } => lex_from(src, spaces, next),
            Scan::Token { token, next } => match lex_from(src, spaces, next) {
                Ok(rest) => Ok(seq![(token, pos_at(src, idx))] + rest),
                Err(error) => Err(error),
            },
        }
    }
}

/// The tokens of a whole text, with white space as Unicode defines it.
pub open spec fn lex(src: Seq<char>) -> Result<Seq<(TokenView, FilePos)>, ParserErrorView> {
    lex_from(src, white_space_mask(src), 0)
}

/// `emitted` followed by what a scan yields.
pub open spec fn after_tokens(
    emitted: Seq<(TokenView, FilePos)>,
    rest: Result<Seq<(TokenView, FilePos)>, ParserErrorView>,
) -> Result<Seq<(TokenView, FilePos)>, ParserErrorView> {
    match rest {
        Ok(tokens) => Ok(emitted + tokens),
        Err(error) => Err(error),
    }
}

/// The views of tokens, each with its position.
pub open spec fn tokens_view(tokens: Seq<(Token, FilePos)>) -> Seq<(TokenView, FilePos)> {
    tokens.map_values(|t: (Token, FilePos)| (t.0@, t.1))
}

/// The tokens or the error of a result, as views.
pub open spec fn lex_result_view(res: Result<Vec<(Token, FilePos)>, ParserError>) -> Result<
    Seq<(TokenView, FilePos)>,
    ParserErrorView,
> {
    match res {
        Ok(tokens) => Ok(tokens_view(tokens@)),
        Err(error) => Err(error@),
    }
}

/// `text` before a literal's remaining body.
pub open spec fn after_text(text: Seq<char>, rest: Option<(Seq<char>, int)>) -> Option<
    (Seq<char>, int),
> {
    match rest {
        Some((tail, close)) => Some((text + tail, close)),
        None => None,
    }
}

/// The number that the decimal digits in `text` write, where it fits.
pub fn parse_decimal(text: &str) -> (res: Option<usize>)
    ensures
        res == if decimal_value(text@) <= usize::MAX {
            Some(decimal_value(text@) as usize)
        } else {
            None::<usize>
        },
{
    let n = text.unicode_len();
    let mut value: usize = 0;
    let mut i: usize = 0;
    while i < n
        invariant
            i <= n,
            n == text@.len(),
            value == decimal_value(text@.take(i as int)),
        decreases n - i,
    {
        let c = text.get_char(i);
        let digit: usize = if c >= '0' && c <= '9' {
            (c as u32 - '0' as u32) as usize
        } else {
            0
        };
        proof {
            assert(text@.take(i + 1).drop_last() =~= text@.take(i as int));
            assert(text@.take(i + 1).last() == c);
            assert(digit == digit_value(c));
        }
        if value > (usize::MAX - digit) / 10 {
            proof {
                lemma_decimal_value_prefix(text@, i + 1);
            }
            return None;
        }
        value = value * 10 + digit;
        i += 1;
    }
    proof {
        assert(text@.take(n as int) =~= text@);
    }
    Some(value)
}

/// A run of digits writes no less than any run it begins with.
pub proof fn lemma_decimal_value_prefix(digits: Seq<char>, k: int)
    requires
        0 <= k <= digits.len(),
    ensures
        decimal_value(digits.take(k)) <= decimal_value(digits),
    decreases digits.len(),
{
    if k < digits.len() {
        lemma_decimal_value_prefix(digits.drop_last(), k);
        assert(digits.drop_last().take(k) =~= digits.take(k));
    } else {
        assert(digits.take(k) =~= digits);
    }
}

/// A cursor in a text and the tokens found behind it.
pub struct Lexer {
    cur: Cursor,
    tokens: Vec<(Token, FilePos)>,
}

impl Lexer {
    /// The text being read.
    pub closed spec fn text(&self) -> Seq<char> {
        self.cur.src@
    }

    /// For each character of the text, whether it counts as white space.
    pub closed spec fn spaces(&self) -> Seq<bool> {
        self.cur.spaces@
    }

    /// The index of the character under the cursor.
    pub closed spec fn index(&self) -> int {
        self.cur.idx as int
    }

    /// The character under the cursor.
    pub closed spec fn peek(&self) -> Option<char> {
        self.cur.next
    }

    /// The position of the cursor.
    pub closed spec fn position(&self) -> FilePos {
        self.cur.file_pos
    }

    /// The tokens emitted so far.
    pub closed spec fn emitted(&self) -> Seq<(TokenView, FilePos)> {
        tokens_view(self.tokens@)
    }

    /// The cached length is that of the text.
    pub closed spec fn cached(&self) -> bool {
        self.cur.len == self.cur.src@.len()
    }

    /// Every character has its mark, and the character and the position
    /// under the cursor are those of the text at the index.
    pub open spec fn wf(&self) -> bool {
        &&& self.cached()
        &&& self.spaces().len() == self.text().len()
        &&& self.peek() == char_at(self.text(), self.index())
        &&& self.position() == pos_at(self.text(), self.index())
    }

    /// The state after one sub-scan that started in state `before` and was to
    /// do what `scan` says.
    pub open spec fn scanned(
        self,
        before: Lexer,
        res: Result<(), ParserError>,
        scan: Scan,
    ) -> bool {
        match scan {
            Scan::Token { token, next } => {
                &&& res is Ok
                &&& self.wf()
                &&& self.text() == before.text()
                &&& self.spaces() == before.spaces()
                &&& self.index() == next
                &&& self.emitted() == before.emitted().push(
                    (token, pos_at(before.text(), before.index())),
                )
            },
            Scan::Skip { next } => {
                &&& res is Ok
                &&& self.wf()
                &&& self.text() == before.text()
                &&& self.spaces() == before.spaces()
                &&& self.index() == next
                &&& self.emitted() == before.emitted()
            },
            Scan::Fail { error } => res matches Err(e) && e@ == error,
        }
    }

    /// A lexer at the start of `src`, with white space as Unicode defines
    /// it.
    pub fn new(src: Box<String>) -> (lexer: Self)
        ensures
            lexer.wf(),
            lexer.text() == src@,
            lexer.spaces() == white_space_mask(src@),
            lexer.index() == 0,
            lexer.emitted() == Seq::<(TokenView, FilePos)>::empty(),
    {
        let lexer = Self { cur: Cursor::new(*src), tokens: Vec::new() };
        assert(lexer.emitted() =~= Seq::empty());
        lexer
    }

    /// A lexer on `src` that takes for white space the characters that
    /// `spaces` marks.
    pub fn with_spaces(src: Box<String>, spaces: Vec<bool>) -> (lexer: Self)
        requires
            spaces@.len() == src@.len(),
        ensures
            lexer.wf(),
            lexer.text() == src@,
            lexer.spaces() == spaces@,
            lexer.index() == 0,
            lexer.emitted() == Seq::<(TokenView, FilePos)>::empty(),
    {
        let lexer = Self { cur: Cursor::with_spaces(*src, spaces), tokens: Vec::new() };
        assert(lexer.emitted() =~= Seq::empty());
        lexer
    }

    /// Moves the cursor one character on.
    pub fn advance(&mut self)
        requires
            old(self).wf(),
            old(self).index() < usize::MAX,
        ensures
            final(self).wf(),
            final(self).text() == old(self).text(),
            final(self).spaces() == old(self).spaces(),
            final(self).index() == old(self).index() + 1,
            final(self).emitted() == old(self).emitted(),
    {
        self.cur.advance();
    }

    /// Moves the cursor one character back; the position is again that of
    /// the text at the index.
    pub fn regress(&mut self)
        requires
            old(self).wf(),
            old(self).index() > 0,
        ensures
            final(self).wf(),
            final(self).text() == old(self).text(),
            final(self).spaces() == old(self).spaces(),
            final(self).index() == old(self).index() - 1,
            final(self).emitted() == old(self).emitted(),
    {
        self.cur.regress();
    }

    /// Emits `token` at position `pos`.
    fn emit(&mut self, token: Token, pos: FilePos)
        ensures
            final(self).cur == old(self).cur,
            final(self).emitted() == old(self).emitted().push((token@, pos)),
    {
        self.tokens.push((token, pos));
        assert(self.emitted() =~= old(self).emitted().push((token@, pos)));
    }

    /// Cuts the text from the cursor on into tokens, behind those emitted
    /// so far. Consumes self.
    pub fn tokenize(self) -> (res: Result<Vec<(Token, FilePos)>, ParserError>)
        requires
            self.wf(),
        ensures
            lex_result_view(res) == after_tokens(
                self.emitted(),
                lex_from(self.text(), self.spaces(), self.index()),
            ),
    {
        let mut lexer = self;
        let ghost src = lexer.text();
        let ghost spaces = lexer.spaces();
        let ghost goal = after_tokens(lexer.emitted(), lex_from(src, spaces, lexer.index()));
        while lexer.cur.next.is_some()
            invariant
                lexer.wf(),
                lexer.text() == src,
                lexer.spaces() == spaces,
                after_tokens(lexer.emitted(), lex_from(src, spaces, lexer.index())) == goal,
                goal == after_tokens(
                    self.emitted(),
                    lex_from(self.text(), self.spaces(), self.index()),
                ),
            decreases src.len() - lexer.index(),
        {
            let curr = lexer.cur.next.unwrap();
            // Skip whitespace
            if lexer.cur.at_space() {
                lexer.advance();
                continue;
            }
            let ghost before = lexer;
            proof {
                lemma_scan_at_advances(src, spaces, lexer.index());
            }
            let pos = lexer.cur.file_pos;
            if curr == '$' {
                return Err(ParserError::MacroNotDefined(pos));
            } else if curr == '@' {
                // non ops
                lexer.function_call()?;
            } else if curr == '{' {
                lexer.emit(Token::FunctionDefine, pos);
                lexer.advance();
            } else if curr == '}' {
                lexer.emit(Token::FunctionEnd, pos);
                lexer.advance();
            } else if curr == '[' {
                lexer.emit(Token::LoopStart, pos);
                lexer.advance();
            } else if curr == ']' {
                lexer.emit(Token::LoopEnd, pos);
                lexer.advance();
            } else if curr == '/' {
                // comments
                lexer.comment()?;
            } else if curr == '.' {
                // Unary Char Operations
                lexer.op(Op::Dump);
            } else if curr == ',' {
                lexer.op(Op::Take);
            } else if curr == '>' {
                lexer.op(Op::PtrRight);
            } else if curr == '<' {
                lexer.op(Op::PtrLeft);
            } else if curr == '+' {
                lexer.op(Op::Inc);
            } else if curr == '-' {
                lexer.op(Op::Dec);
            } else if curr == '~' {
                lexer.op(Op::BitNot);
            } else if curr == '"' {
                // String Literal
                lexer.str_literal()?;
            } else if curr == '_' {
                // Stack Operations
                lexer.stack_op(StackType::Pop)?;
            } else if curr == '&' {
                lexer.stack_op(StackType::HardPop)?;
            } else if curr == '^' {
                lexer.stack_op(StackType::Push)?;
            } else {
                // invalid characters
                return Err(ParserError::IllegalCharacter(curr, pos));
            }
            proof {
                let scan = scan_at(src, spaces, before.index());
                assert(lexer.scanned(before, Ok(()), scan));
                if let Scan::Token { token, next } = scan {
                    if let Ok(rest) = lex_from(src, spaces, next) {
                        let first = (token, pos_at(src, before.index()));
                        assert(before.emitted().push(first) + rest =~= before.emitted() + (seq![
                            first,
                        ] + rest));
                    }
                }
            }
        }
        Ok(lexer.tokens)
    }

    /// Reads a line comment, which opens with two slashes.
    fn comment(&mut self) -> (res: Result<(), ParserError>)
        requires
            old(self).wf(),
            old(self).peek() == Some('/'),
        ensures
            final(self).scanned(
                *old(self),
                res,
                scan_comment(old(self).text(), old(self).index()),
            ),
    {
        let ghost src = self.text();
        let ghost spaces = self.spaces();
        let ghost start = self.index();
        self.advance();
        if self.cur.next == Some('/') {
            // single line comments with '//'
            while self.cur.next.is_some() && self.cur.next != Some('\n')
                invariant
                    self.wf(),
                    self.text() == src,
                    self.spaces() == spaces,
                    self.emitted() == old(self).emitted(),
                    old(self).text() == src,
                    old(self).spaces() == spaces,
                    old(self).index() == start,
                    0 <= start < self.index() <= src.len(),
                    find_first(src, start + 1, CharClass::LineFeed) == find_first(
                        src,
                        self.index(),
                        CharClass::LineFeed,
                    ),
                decreases src.len() - self.index(),
            {
                self.advance();
            }
            return Ok(());
        }
        Err(ParserError::IllegalCharacter('/', self.cur.file_pos))
    }

    // Used for stack operations: a prefix, then a fold or the size of a new tape
    fn stack_op(&mut self, stack: StackType) -> (res: Result<(), ParserError>)
        requires
            old(self).wf(),
            old(self).peek() is Some,
        ensures
            final(self).scanned(
                *old(self),
                res,
                scan_stack_op(old(self).text(), old(self).index(), stack),
            ),
    {
        let ghost src = self.text();
        let ghost spaces = self.spaces();
        let ghost start = self.index();
        let pos = self.cur.file_pos;
        self.advance();
        let stack_op = if let Some(curr) = self.cur.next {
            // special case for push for push new ( ^10)
            if stack == StackType::Push && curr >= '0' && curr <= '9' {
                let mut builder = TextBuf::new();
                // keeps reading character digits until no longer digits
                while self.cur.next.is_some() && self.cur.next.unwrap() >= '0'
                    && self.cur.next.unwrap() <= '9'
                    invariant
                        self.wf(),
                        self.text() == src,
                        self.spaces() == spaces,
                        self.emitted() == old(self).emitted(),
                        old(self).text() == src,
                        old(self).spaces() == spaces,
                        old(self).index() == start,
                        pos == pos_at(src, start),
                        stack == StackType::Push,
                        0 <= start < self.index() <= src.len(),
                        builder.wf(),
                        builder@ == src.subrange(start + 1, self.index()),
                        find_first(src, start + 1, CharClass::NonDigit) == find_first(
                            src,
                            self.index(),
                            CharClass::NonDigit,
                        ),
                    decreases src.len() - self.index(),
                {
                    builder.push(self.cur.next.unwrap());
                    self.advance();
                    assert(src.subrange(start + 1, self.index()) =~= src.subrange(
                        start + 1,
                        self.index() - 1,
                    ).push(src[self.index() - 1]));
                }
                // turns read number into a tape size
                let digits = builder.finish();
                match parse_decimal(digits.as_str()) {
                    Some(size) => {
                        self.emit(Token::Op(Op::PushNew(size)), pos);
                        return Ok(());
                    },
                    None => {
                        return Err(ParserError::Generic);
                    },
                }
            }
            self.advance();
            // checks if next char creates a dualchar op (_+, &=)
            if curr == '+' {
                StackOp::Add
            } else if curr == '-' {
                StackOp::Sub
            } else if curr == '*' {
                StackOp::Mul
            } else if curr == '/' {
                StackOp::Div
            } else if curr == '=' {
                StackOp::Assign
            } else if curr == '&' {
                // Bitwise
                StackOp::BitAnd
            } else if curr == '|' {
                StackOp::BitOr
            } else if curr == '^' {
                StackOp::BitXor
            } else {
                // go back if next char isn't part of a dualchar op
                self.regress();
                StackOp::Default
            }
        } else {
            // Default stack operation (single '&' or '_') if EOF
            StackOp::Default
        };
        let next_tok = Token::Op(
            match stack {
                StackType::Pop => Op::PopOp(stack_op),
                StackType::HardPop => Op::HardPopOp(stack_op),
                StackType::Push => Op::PushOp(stack_op),
            },
        );
        self.emit(next_tok, pos);
        Ok(())
    }

    // Used to read function calls as well as function defines (eg. @main, @main {})
    fn function_call(&mut self) -> (res: Result<(), ParserError>)
        requires
            old(self).wf(),
            old(self).peek() is Some,
        ensures
            final(self).scanned(
                *old(self),
                res,
                scan_function_call(old(self).text(), old(self).spaces(), old(self).index()),
            ),
    {
        let ghost src = self.text();
        let ghost spaces = self.spaces();
        let ghost start = self.index();
        let pos = self.cur.file_pos;
        self.advance();
        let mut builder = TextBuf::new();
        while self.cur.next.is_some()
            invariant
                self.wf(),
                self.text() == src,
                self.spaces() == spaces,
                self.emitted() == old(self).emitted(),
                old(self).text() == src,
                old(self).spaces() == spaces,
                old(self).index() == start,
                pos == pos_at(src, start),
                0 <= start < self.index() <= src.len(),
                builder.wf(),
                builder@ == src.subrange(start + 1, self.index()),
                find_space(spaces, start + 1) == find_space(spaces, self.index()),
            decreases src.len() - self.index(),
        {
            let curr = self.cur.next.unwrap();
            if self.cur.at_space() {
                let func_name = builder.finish();
                self.advance();
                self.emit(Token::FunctionCall(func_name), pos);
                return Ok(());
            }
            builder.push(curr);
            self.advance();
            assert(src.subrange(start + 1, self.index()) =~= src.subrange(
                start + 1,
                self.index() - 1,
            ).push(curr));
        }
        Err(ParserError::FunctionMustEndWithWhitespace(self.cur.file_pos))
    }

    fn str_literal(&mut self) -> (res: Result<(), ParserError>)
        requires
            old(self).wf(),
            old(self).peek() is Some,
        ensures
            final(self).scanned(
                *old(self),
                res,
                scan_str_literal(old(self).text(), old(self).index()),
            ),
    {
        let ghost src = self.text();
        let ghost spaces = self.spaces();
        let ghost start = self.index();
        let pos = self.cur.file_pos;
        self.advance();
        let mut builder = TextBuf::new();
        proof {
            let rest = scan_literal(src, start + 1);
            if let Some((tail, close)) = rest {
                assert(Seq::<char>::empty() + tail =~= tail);
            }
        }
        while self.cur.next.is_some()
            invariant
                self.wf(),
                self.text() == src,
                self.spaces() == spaces,
                self.emitted() == old(self).emitted(),
                old(self).text() == src,
                old(self).spaces() == spaces,
                old(self).index() == start,
                pos == pos_at(src, start),
                0 <= start < self.index() <= src.len(),
                builder.wf(),
                after_text(builder@, scan_literal(src, self.index())) == scan_literal(
                    src,
                    start + 1,
                ),
            decreases src.len() - self.index(),
        {
            let curr = self.cur.next.unwrap();
            let ghost text = builder@;
            let ghost at = self.index();
            // escaped characters
            if curr == '\\' {
                self.advance();
                if let Some(curr) = self.cur.next {
                    let decoded = if curr == 'n' {
                        '\n'
                    } else if curr == 't' {
                        '\t'
                    } else if curr == '0' {
                        '\0'
                    } else {
                        curr
                    };
                    builder.push(decoded);
                    self.advance();
                    proof {
                        if let Some((tail, close)) = scan_literal(src, at + 2) {
                            assert(text.push(decoded) + tail =~= text + (seq![decoded] + tail));
                        }
                    }
                } else {
                    // returns error if reaches end of file after escape char
                    return Err(ParserError::LiteralNotEnded(self.cur.file_pos));
                }
                continue;
            }
            // termination

            if curr == '"' {
                // finalizes buidler & adds operation
                let literal = builder.finish();
                assert(text + Seq::<char>::empty() =~= text);
                self.emit(Token::Op(Op::Literal(literal)), pos);
                self.advance();
                return Ok(());
            }
            builder.push(curr);
            self.advance();
            proof {
                if let Some((tail, close)) = scan_literal(src, at + 1) {
                    assert(text.push(curr) + tail =~= text + (seq![curr] + tail));
                }
            }
        }
        Err(ParserError::LiteralNotEnded(self.cur.file_pos))
    }

    /// Emits `op` at the position of the cursor and moves one character on.
    pub fn op(&mut self, op: Op)
        requires
            old(self).wf(),
            old(self).index() < usize::MAX,
        ensures
            final(self).wf(),
            final(self).text() == old(self).text(),
            final(self).spaces() == old(self).spaces(),
            final(self).index() == old(self).index() + 1,
            final(self).emitted() == old(self).emitted().push(
                (TokenView::Op(op@), old(self).position()),
            ),
    {
        let pos = self.cur.file_pos;
        self.emit(Token::Op(op), pos);
        self.advance();
    }
}

/// Lexing is a function of the text: two lexers that stand at the same index
/// of the same text, with the same marks of white space and the same tokens
/// behind them, give the same tokens and positions or the same error.
pub proof fn lemma_tokenize_deterministic(
    first: Lexer,
    second: Lexer,
    first_res: Result<Vec<(Token, FilePos)>, ParserError>,
    second_res: Result<Vec<(Token, FilePos)>, ParserError>,
)
    requires
        first.text() == second.text(),
        first.spaces() == second.spaces(),
        first.index() == second.index(),
        first.emitted() == second.emitted(),
        lex_result_view(first_res) == after_tokens(
            first.emitted(),
            lex_from(first.text(), first.spaces(), first.index()),
        ),
        lex_result_view(second_res) == after_tokens(
            second.emitted(),
            lex_from(second.text(), second.spaces(), second.index()),
        ),
    ensures
        lex_result_view(first_res) == lex_result_view(second_res),
{
}

} // verus!
