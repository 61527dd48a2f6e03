//! Positions in a source text and the errors that carry them.

use vstd::prelude::*;
use super::lexer::{Token, TokenView};

verus! {

/// A line and column in the source text, both counted from one.
#[derive(Debug, Copy, Clone, PartialEq, Eq, Structural)]
pub struct FilePos {
    pub line: usize,
    pub column: usize,
}

impl FilePos {
    /// The position at which every scan begins.
    pub open spec fn start() -> FilePos {
        FilePos { line: 1, column: 1 }
    }

    /// The position after the scan has moved onto `c`: a line feed opens the
    /// next line, any other character moves one column on, and the end of the
    /// text leaves the position where it is.
    pub open spec fn step(self, c: Option<char>) -> FilePos {
        match c {
            Some(ch) => if ch == '\n' {
                FilePos { line: (self.line + 1) as usize, column: 1 }
            } else {
                FilePos { line: self.line, column: (self.column + 1) as usize }
            },
            None => self,
        }
    }

    /// The first line and column.
    pub fn new() -> (pos: Self)
        ensures
            pos == FilePos::start(),
    {
        Self { line: 1, column: 1 }
    }

    /// Moves the position onto `c`.
    pub fn advance(&mut self, c: Option<char>)
        requires
            c == Some('\n') ==> old(self).line < usize::MAX,
            c is Some && c != Some('\n') ==> old(self).column < usize::MAX,
        ensures
            *final(self) == old(self).step(c),
    {
        if let Some(c) = c {
            if c == '\n' {
                self.column = 1;
                self.line += 1;
            } else {
                self.column += 1;
            }
        }
    }
}

/// Why preprocessing, lexing or parsing stopped.
#[derive(Debug, PartialEq, Eq)]
pub enum ParserError {
    // Preprocessor
    NoSubMacros(FilePos),
    NoMacroDef(FilePos),
    // Lexer
    IllegalCharacter(char, FilePos),
    LiteralNotEnded(FilePos),
    FunctionMustEndWithWhitespace(FilePos),
    MacroNotDefined(FilePos),
    // Parser
    UnexpectedToken(Token, FilePos),
    FunctionCallMustBeInFunction(String, FilePos),
    NoNestedFunctionDefines(FilePos),
    LoopNotEnded(FilePos),
    DuplicateFunctionNames(FilePos),
    Generic,
}

/// A [`ParserError`] with its text as sequences of characters.
pub ghost enum ParserErrorView {
    NoSubMacros(FilePos),
    NoMacroDef(FilePos),
    IllegalCharacter(char, FilePos),
    LiteralNotEnded(FilePos),
    FunctionMustEndWithWhitespace(FilePos),
    MacroNotDefined(FilePos),
    UnexpectedToken(TokenView, FilePos),
    FunctionCallMustBeInFunction(Seq<char>, FilePos),
    NoNestedFunctionDefines(FilePos),
    LoopNotEnded(FilePos),
    DuplicateFunctionNames(FilePos),
    Generic,
}

impl View for ParserError {
    type V = ParserErrorView;

    open spec fn view(&self) -> ParserErrorView {
        match self {
            ParserError::NoSubMacros(pos) => ParserErrorView::NoSubMacros(*pos),
            ParserError::NoMacroDef(pos) => ParserErrorView::NoMacroDef(*pos),
            ParserError::IllegalCharacter(c, pos) => ParserErrorView::IllegalCharacter(*c, *pos),
            ParserError::LiteralNotEnded(pos) => ParserErrorView::LiteralNotEnded(*pos),
            ParserError::FunctionMustEndWithWhitespace(pos) =>
                ParserErrorView::FunctionMustEndWithWhitespace(*pos),
            ParserError::MacroNotDefined(pos) => ParserErrorView::MacroNotDefined(*pos),
            ParserError::UnexpectedToken(tok, pos) => ParserErrorView::UnexpectedToken(tok@, *pos),
            ParserError::FunctionCallMustBeInFunction(name, pos) =>
                ParserErrorView::FunctionCallMustBeInFunction(name@, *pos),
            ParserError::NoNestedFunctionDefines(pos) =>
                ParserErrorView::NoNestedFunctionDefines(*pos),
            ParserError::LoopNotEnded(pos) => ParserErrorView::LoopNotEnded(*pos),
            ParserError::DuplicateFunctionNames(pos) =>
                ParserErrorView::DuplicateFunctionNames(*pos),
            ParserError::Generic => ParserErrorView::Generic,
        }
    }
}

} // verus!
