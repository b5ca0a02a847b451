//! The Selene language: source spans, lexical errors and the lexer.

pub mod chars;
pub mod command;
pub mod config;
pub mod decimal;
pub mod error;
pub mod grammar;
pub mod lexer;
pub mod span;
pub mod theorems;
pub mod token;
pub mod ty;

use crate::error::ErrorSink;
use crate::grammar::errors_of;
use crate::lexer::lex;
use vstd::prelude::*;

verus! {

/// Executes the given source code as a whole.
///
/// The text is scanned to its end whatever it holds. It succeeds where the
/// scan found no lexical error; otherwise the sink comes back with every
/// error of the text, in the order in which they stand in it.
pub fn execute(source: &str) -> (result: Result<(), ErrorSink>)
    requires
        source@.len() <= u32::MAX,
    ensures
        match result {
            Ok(_) => errors_of(source@).len() == 0,
            Err(sink) => sink@ == errors_of(source@) && sink@.len() > 0,
        },
{
    let (_, errors) = lex(source);
    if errors.has_errors() {
        Err(errors)
    } else {
        Ok(())
    }
}

} // verus!
