//! Half-open ranges of character offsets into a source text.

use crate::decimal::{decimal, push_decimal};
use vstd::prelude::*;
use vstd::string::StringExecFns;

verus! {

/// The half-open range `[start, end)` of character offsets that a fragment
/// of the source text occupies. Offsets count characters, not bytes.
#[derive(Clone, Copy, Debug, PartialEq, Eq, Structural)]
pub struct Span {
    pub start: u32,
    pub end: u32,
}

impl Span {
    /// A span is well formed when it does not end before it starts.
    pub open spec fn wf(self) -> bool {
        self.start <= self.end
    }

    /// The number of characters the span covers.
    pub open spec fn spec_len(self) -> nat {
        (self.end - self.start) as nat
    }

    /// How the span is shown: its two places in decimal digits, with two
    /// dots between them.
    pub open spec fn shown(self) -> Seq<char> {
        decimal(self.start as nat) + ".."@ + decimal(self.end as nat)
    }

    /// The number of characters the span covers.
    pub fn len(self) -> (n: u32)
        requires
            self.wf(),
        ensures
            n == self.spec_len(),
            n == self.end - self.start,
    {
        self.end - self.start
    }

    /// The span as it is shown, `3..7` for the span from place 3 to place 7.
    pub fn to_string(self) -> (shown: String)
        ensures
            shown@ == self.shown(),
    {
        let mut shown = String::new();
        push_decimal(&mut shown, self.start as u64);
        shown.append("..");
        push_decimal(&mut shown, self.end as u64);
        shown
    }
}

} // verus!
