//! Character classes the lexer decides by.
//!
//! Whether a character is white space or alphabetic is answered by the
//! standard library, whether it may start or continue an identifier by the
//! `unicode-xid` crate. Their answers for ASCII are fixed and stated here;
//! beyond ASCII they come from tables of the Unicode character database,
//! which this module only names.

use unicode_xid::UnicodeXID;
use vstd::prelude::*;

verus! {

/// Whether `c` is one of the 128 ASCII characters.
pub open spec fn is_ascii(c: char) -> bool {
    c <= '\x7f'
}

/// `a` to `z` and `A` to `Z`.
pub open spec fn is_ascii_letter(c: char) -> bool {
    ('a' <= c && c <= 'z') || ('A' <= c && c <= 'Z')
}

/// `0` to `9`.
pub open spec fn is_ascii_digit(c: char) -> bool {
    '0' <= c && c <= '9'
}

/// The ASCII characters with the Unicode property `White_Space`: the space
/// and the control characters from tab to carriage return.
pub open spec fn is_ascii_whitespace(c: char) -> bool {
    c == ' ' || ('\t' <= c && c <= '\r')
}

/// What `char::is_whitespace` answers for a character beyond ASCII.
pub uninterp spec fn whitespace_beyond_ascii(c: char) -> bool;

/// What `char::is_alphabetic` answers for a character beyond ASCII.
pub uninterp spec fn alphabetic_beyond_ascii(c: char) -> bool;

/// What `UnicodeXID::is_xid_start` answers for a character beyond ASCII.
pub uninterp spec fn xid_start_beyond_ascii(c: char) -> bool;

/// What `UnicodeXID::is_xid_continue` answers for a character beyond ASCII.
pub uninterp spec fn xid_continue_beyond_ascii(c: char) -> bool;

/// Whether `c` has the Unicode property `White_Space`.
pub open spec fn is_white_space(c: char) -> bool {
    if is_ascii(c) {
        is_ascii_whitespace(c)
    } else {
        whitespace_beyond_ascii(c)
    }
}

/// Whether `c` has the Unicode property `Alphabetic`.
pub open spec fn is_letter(c: char) -> bool {
    if is_ascii(c) {
        is_ascii_letter(c)
    } else {
        alphabetic_beyond_ascii(c)
    }
}

/// Whether `c` has the Unicode property `XID_Start`.
pub open spec fn is_xid_start(c: char) -> bool {
    if is_ascii(c) {
        is_ascii_letter(c)
    } else {
        xid_start_beyond_ascii(c)
    }
}

/// Whether `c` has the Unicode property `XID_Continue`.
pub open spec fn is_xid_continue(c: char) -> bool {
    if is_ascii(c) {
        is_ascii_letter(c) || is_ascii_digit(c) || c == '_'
    } else {
        xid_continue_beyond_ascii(c)
    }
}

/// `char::is_whitespace` of the standard library, which tests the Unicode
/// property `White_Space`. Claimed: among ASCII characters it holds of the
/// space and of tab, line feed, vertical tab, form feed and carriage return,
/// and of no other; beyond ASCII the answer depends on the character alone.
pub assume_specification[ char::is_whitespace ](c: char) -> (b: bool)
    ensures
        is_ascii(c) ==> b == is_ascii_whitespace(c),
        !is_ascii(c) ==> b == whitespace_beyond_ascii(c),
;

/// `char::is_alphabetic` of the standard library, which tests the Unicode
/// property `Alphabetic`. Claimed: among ASCII characters it holds of the
/// letters and of no other; beyond ASCII the answer depends on the
/// character alone.
pub assume_specification[ char::is_alphabetic ](c: char) -> (b: bool)
    ensures
        is_ascii(c) ==> b == is_ascii_letter(c),
        !is_ascii(c) ==> b == alphabetic_beyond_ascii(c),
;

/// `UnicodeXID::is_xid_start` of `unicode-xid`. Claimed, as its fast path
/// for ASCII shows: among ASCII characters it holds of the letters and of no
/// other; beyond ASCII the answer is looked up in a table and depends on the
/// character alone.
#[verifier::external_body]
pub(crate) fn xid_start(c: char) -> (b: bool)
    ensures
        is_ascii(c) ==> b == is_ascii_letter(c),
        !is_ascii(c) ==> b == xid_start_beyond_ascii(c),
{
    UnicodeXID::is_xid_start(c)
}

/// `UnicodeXID::is_xid_continue` of `unicode-xid`. Claimed, as its fast path
/// for ASCII shows: among ASCII characters it holds of the letters, the
/// digits and the underscore, and of no other; beyond ASCII the answer is
/// looked up in a table and depends on the character alone.
#[verifier::external_body]
pub(crate) fn xid_continue(c: char) -> (b: bool)
    ensures
        is_ascii(c) ==> b == (is_ascii_letter(c) || is_ascii_digit(c) || c == '_'),
        !is_ascii(c) ==> b == xid_continue_beyond_ascii(c),
{
    UnicodeXID::is_xid_continue(c)
}

/// `String::push` of the standard library: appends one character.
pub assume_specification[ std::string::String::push ](s: &mut std::string::String, c: char)
    ensures
        final(s)@ == old(s)@.push(c),
;

/// The classes of characters of which the lexer consumes whole runs.
#[derive(Clone, Copy, Debug, PartialEq, Eq, Structural)]
pub enum CharClass {
    /// The digits and the underscore that may separate groups of them.
    Digits,
    /// Everything but the line feed: what a comment runs over.
    CommentBody,
    /// White space other than the line feed.
    Blank,
    /// What may continue an identifier.
    IdentContinue,
    /// What a unit suffix is made of.
    Letters,
}

impl CharClass {
    /// Whether `c` belongs to the class.
    pub open spec fn contains(self, c: char) -> bool {
        match self {
            CharClass::Digits => is_ascii_digit(c) || c == '_',
            CharClass::CommentBody => c != '\n',
            CharClass::Blank => is_white_space(c) && c != '\n',
            CharClass::IdentContinue => is_xid_continue(c),
            CharClass::Letters => is_letter(c),
        }
    }

    /// Whether `c` belongs to the class.
    pub fn holds(self, c: char) -> (b: bool)
        ensures
            b == self.contains(c),
    {
        match self {
            CharClass::Digits => ('0' <= c && c <= '9') || c == '_',
            CharClass::CommentBody => c != '\n',
            CharClass::Blank => c.is_whitespace() && c != '\n',
            CharClass::IdentContinue => xid_continue(c),
            CharClass::Letters => c.is_alphabetic(),
        }
    }
}

/// The characters of `s`, in order.
pub fn to_chars(s: &str) -> (v: Vec<char>)
    ensures
        v@ == s@,
{
    let mut v: Vec<char> = Vec::new();
    for c in it: s.chars()
        invariant
            v@ == it.seq().take(it.index() as int),
    {
        v.push(c);
    }
    v
}

} // verus!
