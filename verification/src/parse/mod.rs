//! From source text to functions: macros, tokens, trees.

pub mod cursor;
pub mod err;
pub mod lexer;
pub mod parser;
pub mod preproc;
pub mod text;

use vstd::prelude::*;
use err::{ParserError, ParserErrorView};
use lexer::{lex, Lexer};
use parser::{funcs_result_view, parse_tokens, Func, FuncView, Parser};
use preproc::expand;

verus! {

/// The functions that a source text defines, or the first error: macros are
/// expanded, the expanded text is cut into tokens, and the tokens are parsed.
pub open spec fn parse_source(content: Seq<char>) -> Result<Seq<FuncView>, ParserErrorView> {
    match expand(content) {
        Ok(processed) => match lex(processed) {
            Ok(tokens) => parse_tokens(tokens),
            Err(error) => Err(error),
        },
        Err(error) => Err(error),
    }
}

/// Parses a source text into its functions.
pub fn parse(content: String) -> (res: Result<Vec<Func>, ParserError>)
    ensures
        funcs_result_view(res) == parse_source(content@),
{
    let processed = preproc::process(content)?;
    let tokens = Lexer::new(processed).tokenize()?;
    let functions = Parser::new(tokens).create_functions()?;
    Ok(functions)
}

} // verus!
