//! Lexical errors and the sink that collects them.

use crate::decimal::{decimal, push_decimal};
use crate::span::Span;
use vstd::prelude::*;
use vstd::string::StringExecFns;

verus! {

/// A problem found while scanning. None of them stops the scan: the token
/// that the problem belongs to is still produced.
#[derive(Clone, Debug, PartialEq, Eq)]
pub enum LangError {
    /// A string literal whose closing quote is missing. The span covers the
    /// opening quote only.
    UnterminatedString { span: Span },
    /// A number that ends in a `.` with no digit behind it. The span covers
    /// the number and the dot.
    FloatWithoutFractional { span: Span },
    /// A number followed by letters that name neither a size nor a duration.
    /// The span covers the letters only.
    UnknownNumericSuffix { suffix: String, span: Span },
}

/// The mathematical value of a [`LangError`]: the same variants, with the
/// suffix as a sequence of characters.
pub ghost enum LangErrorView {
    UnterminatedString { span: Span },
    FloatWithoutFractional { span: Span },
    UnknownNumericSuffix { suffix: Seq<char>, span: Span },
}

impl View for LangError {
    type V = LangErrorView;

    open spec fn view(&self) -> LangErrorView {
        match self {
            LangError::UnterminatedString { span } => LangErrorView::UnterminatedString {
                span: *span,
            },
            LangError::FloatWithoutFractional { span } => LangErrorView::FloatWithoutFractional {
                span: *span,
            },
            LangError::UnknownNumericSuffix { suffix, span } => LangErrorView::UnknownNumericSuffix {
                suffix: suffix@,
                span: *span,
            },
        }
    }
}

/// The mathematical value of an error that may be absent.
pub open spec fn view_of(error: Option<LangError>) -> Option<LangErrorView> {
    match error {
        Some(error) => Some(error@),
        None => None,
    }
}

impl LangErrorView {
    /// The place in the source text that the error points at.
    pub open spec fn span(self) -> Span {
        match self {
            LangErrorView::UnterminatedString { span } => span,
            LangErrorView::FloatWithoutFractional { span } => span,
            LangErrorView::UnknownNumericSuffix { span, .. } => span,
        }
    }
}

impl LangError {
    /// The place in the source text that the error points at.
    pub fn span(&self) -> (span: Span)
        ensures
            span == self@.span(),
    {
        match self {
            LangError::UnterminatedString { span } => *span,
            LangError::FloatWithoutFractional { span } => *span,
            LangError::UnknownNumericSuffix { span, .. } => *span,
        }
    }
}

/// The errors of one scanning pass, in the order in which they were found.
#[derive(Debug)]
pub struct ErrorSink {
    errors: Vec<LangError>,
}

impl View for ErrorSink {
    type V = Seq<LangErrorView>;

    closed spec fn view(&self) -> Seq<LangErrorView> {
        self.errors@.map_values(|e: LangError| e@)
    }
}

/// The message of a failure with `count` errors: it gives the count, and
/// says `error` of one and `errors` of any other number.
pub open spec fn failure_message(count: nat) -> Seq<char> {
    "execution failed with "@ + decimal(count) + " error"@ + if count == 1 {
        ""@
    } else {
        "s"@
    }
}

impl ErrorSink {
    /// A sink that holds no error.
    pub fn new() -> (sink: Self)
        ensures
            sink@ == Seq::<LangErrorView>::empty(),
    {
        Self { errors: Vec::new() }
    }

    /// Whether any error was pushed.
    pub fn has_errors(&self) -> (b: bool)
        ensures
            b == (self@.len() > 0),
    {
        !self.errors.is_empty()
    }

    /// Appends `error` behind the errors already held.
    pub fn push(&mut self, error: LangError)
        ensures
            final(self)@ == old(self)@.push(error@),
    {
        self.errors.push(error);
    }

    /// The number of errors held.
    pub fn len(&self) -> (n: usize)
        ensures
            n == self@.len(),
    {
        self.errors.len()
    }

    /// The message under which the errors are reported together.
    pub fn to_string(&self) -> (message: String)
        ensures
            message@ == failure_message(self@.len()),
    {
        let count = self.errors.len();
        let mut message = String::from_str("execution failed with ");
        push_decimal(&mut message, count as u64);
        message.append(" error");
        if count != 1 {
            message.append("s");
        }
        proof {
            reveal_strlit("");
            assert(message@ == failure_message(self@.len()));
        }
        message
    }

    /// The error found `index`-th, counting from zero, if there are that many.
    pub fn get(&self, index: usize) -> (error: Option<&LangError>)
        ensures
            index < self@.len() ==> error is Some && error->0@ == self@[index as int],
            index >= self@.len() ==> error is None,
    {
        if index < self.errors.len() {
            Some(&self.errors[index])
        } else {
            None
        }
    }
}

impl Default for ErrorSink {
    fn default() -> (sink: Self)
        ensures
            sink@ == Seq::<LangErrorView>::empty(),
    {
        Self::new()
    }
}

} // verus!
