//! The lexical grammar: which tokens and errors a text consists of.
//!
//! A text is a sequence of characters, and a place in it is the number of
//! characters before that place. Everything here is a mathematical
//! definition; the lexer is proved to compute exactly what it says.

use crate::chars::{is_ascii_digit, is_letter, is_white_space, is_xid_start, CharClass};
use crate::error::LangErrorView;
use crate::span::Span;
use crate::token::{Token, TokenKind};
use vstd::prelude::*;

verus! {

/// The character at place `i`, or NUL where the text has none.
pub open spec fn char_at(s: Seq<char>, i: int) -> char {
    if 0 <= i < s.len() {
        s[i]
    } else {
        '\0'
    }
}

/// The span from place `start` to place `end`.
pub open spec fn span_between(start: int, end: int) -> Span {
    Span { start: start as u32, end: end as u32 }
}

/// Where the longest run of characters of `class` that begins at `from`
/// ends: the first place at or behind `from` that holds no character of the
/// class.
pub open spec fn run_end(s: Seq<char>, from: int, class: CharClass) -> int
    decreases s.len() - from,
{
    if 0 <= from < s.len() && class.contains(s[from]) {
        run_end(s, from + 1, class)
    } else {
        from
    }
}

/// One step of the lexer: the kind of the token that begins at some place,
/// the place where it ends, and the error found in it, if any.
pub ghost struct Lexeme {
    pub kind: TokenKind,
    pub end: int,
    pub error: Option<LangErrorView>,
}

/// A token that ends at `end` and holds no error.
pub open spec fn sound(kind: TokenKind, end: int) -> Lexeme {
    Lexeme { kind, end, error: None }
}

/// The kind of a symbol that is one character whatever follows it.
pub open spec fn symbol_kind(c: char) -> Option<TokenKind> {
    if c == '(' {
        Some(TokenKind::OpenParen)
    } else if c == ')' {
        Some(TokenKind::CloseParen)
    } else if c == '[' {
        Some(TokenKind::OpenBracket)
    } else if c == ']' {
        Some(TokenKind::CloseBracket)
    } else if c == ':' {
        Some(TokenKind::Colon)
    } else if c == ',' {
        Some(TokenKind::Comma)
    } else if c == '=' {
        Some(TokenKind::Equals)
    } else if c == '+' {
        Some(TokenKind::Add)
    } else if c == '-' {
        Some(TokenKind::Sub)
    } else if c == '*' {
        Some(TokenKind::Mul)
    } else if c == '/' {
        Some(TokenKind::Div)
    } else if c == '^' {
        Some(TokenKind::Pow)
    } else if c == '%' {
        Some(TokenKind::Rem)
    } else if c == '!' {
        Some(TokenKind::Not)
    } else {
        None
    }
}

/// The kind of a word: that of the keyword or type name it spells, `Bool`
/// for `true` and `false`, and `Ident` for every other word. The match is
/// exact and case-sensitive.
pub open spec fn word_kind(w: Seq<char>) -> TokenKind {
    if w == "true"@ || w == "false"@ {
        TokenKind::Bool
    } else if w == "let"@ {
        TokenKind::LetKw
    } else if w == "fn"@ {
        TokenKind::FnKw
    } else if w == "if"@ {
        TokenKind::IfKw
    } else if w == "else"@ {
        TokenKind::ElseKw
    } else if w == "for"@ {
        TokenKind::ForKw
    } else if w == "in"@ {
        TokenKind::InKw
    } else if w == "while"@ {
        TokenKind::WhileKw
    } else if w == "String"@ {
        TokenKind::StringTy
    } else if w == "Int"@ {
        TokenKind::IntTy
    } else if w == "Float"@ {
        TokenKind::FloatTy
    } else if w == "Bool"@ {
        TokenKind::BoolTy
    } else if w == "Size"@ {
        TokenKind::SizeTy
    } else if w == "Duration"@ {
        TokenKind::DurationTy
    } else if w == "Date"@ {
        TokenKind::DateTy
    } else if w == "Time"@ {
        TokenKind::TimeTy
    } else if w == "DateTime"@ {
        TokenKind::DateTimeTy
    } else {
        TokenKind::Ident
    }
}

/// The suffixes that make a number a size.
pub open spec fn is_size_suffix(w: Seq<char>) -> bool {
    w == "b"@ || w == "kb"@ || w == "mb"@ || w == "gb"@ || w == "kib"@ || w == "mib"@ || w
        == "gib"@
}

/// The suffixes that make a number a duration.
pub open spec fn is_duration_suffix(w: Seq<char>) -> bool {
    w == "day"@ || w == "hr"@ || w == "min"@ || w == "s"@ || w == "ms"@ || w == "us"@ || w
        == "ns"@
}

/// The word that begins at `i`: its first character and the longest run of
/// identifier characters behind it.
pub open spec fn word_at(s: Seq<char>, i: int) -> Lexeme {
    let end = run_end(s, i + 1, CharClass::IdentContinue);
    sound(word_kind(s.subrange(i, end)), end)
}

/// Where the string literal ends whose inside continues at `i`, and whether
/// a closing quote ends it. A backslash before a backslash or a quote takes
/// that character with it; before anything else it stands for itself.
pub open spec fn string_scan(s: Seq<char>, i: int) -> (int, bool)
    decreases s.len() - i,
{
    if !(0 <= i < s.len()) {
        (s.len() as int, false)
    } else if s[i] == '"' {
        (i + 1, true)
    } else if s[i] == '\\' && (char_at(s, i + 1) == '\\' || char_at(s, i + 1) == '"') {
        string_scan(s, i + 2)
    } else {
        string_scan(s, i + 1)
    }
}

/// The string literal whose opening quote is at `i`. Where the closing quote
/// is missing, the literal runs to the end of the text and the error points
/// at the opening quote alone.
pub open spec fn string_at(s: Seq<char>, i: int) -> Lexeme {
    let (end, terminated) = string_scan(s, i + 1);
    Lexeme {
        kind: TokenKind::String,
        end,
        error: if terminated {
            None
        } else {
            Some(LangErrorView::UnterminatedString { span: span_between(i, i + 1) })
        },
    }
}

/// A number whose digits end at `body_end`, with the unit suffix that may
/// follow: the longest run of letters. A size suffix makes it a `Size`, a
/// duration suffix a `Duration`; any other keeps the kind of the digits and
/// is an error that spans the letters.
pub open spec fn with_suffix(s: Seq<char>, kind: TokenKind, body_end: int) -> Lexeme {
    if is_letter(char_at(s, body_end)) {
        let end = run_end(s, body_end, CharClass::Letters);
        let suffix = s.subrange(body_end, end);
        if is_size_suffix(suffix) {
            sound(TokenKind::Size, end)
        } else if is_duration_suffix(suffix) {
            sound(TokenKind::Duration, end)
        } else {
            Lexeme {
                kind,
                end,
                error: Some(
                    LangErrorView::UnknownNumericSuffix {
                        suffix,
                        span: span_between(body_end, end),
                    },
                ),
            }
        }
    } else {
        sound(kind, body_end)
    }
}

/// The number whose first digit is at `i`: digits and underscores, then a
/// dot with digits and underscores behind it, then a unit suffix. A dot
/// that no digit follows ends the token and is an error.
pub open spec fn number_at(s: Seq<char>, i: int) -> Lexeme {
    let whole_end = run_end(s, i + 1, CharClass::Digits);
    if char_at(s, whole_end) == '.' {
        if is_ascii_digit(char_at(s, whole_end + 1)) {
            with_suffix(s, TokenKind::Float, run_end(s, whole_end + 2, CharClass::Digits))
        } else {
            Lexeme {
                kind: TokenKind::Float,
                end: whole_end + 1,
                error: Some(
                    LangErrorView::FloatWithoutFractional { span: span_between(i, whole_end + 1) },
                ),
            }
        }
    } else {
        with_suffix(s, TokenKind::Int, whole_end)
    }
}

/// The token that begins at `i`, decided by its first character and, for
/// `/`, `|` and `&`, by the one behind it. The cases are tried in this order.
#[verifier::opaque]
pub open spec fn lexeme_at(s: Seq<char>, i: int) -> Lexeme
    recommends
        0 <= i < s.len(),
{
    let c = s[i];
    let next = char_at(s, i + 1);
    if c == '\n' {
        sound(TokenKind::Newline, i + 1)
    } else if c == '/' && next == '/' {
        sound(TokenKind::Comment, run_end(s, i + 1, CharClass::CommentBody))
    } else if is_white_space(c) {
        sound(TokenKind::Whitespace, run_end(s, i + 1, CharClass::Blank))
    } else if symbol_kind(c) is Some {
        sound(symbol_kind(c)->0, i + 1)
    } else if c == '|' {
        if next == '|' {
            sound(TokenKind::Or, i + 2)
        } else {
            sound(TokenKind::Pipe, i + 1)
        }
    } else if c == '&' && next == '&' {
        sound(TokenKind::And, i + 2)
    } else if c == '"' {
        string_at(s, i)
    } else if is_ascii_digit(c) {
        number_at(s, i)
    } else if is_xid_start(c) || c == '_' {
        word_at(s, i)
    } else {
        sound(TokenKind::Unknown, i + 1)
    }
}

/// A run of characters of one class ends at or behind its beginning, and
/// inside the text.
pub proof fn lemma_run_end_bounds(s: Seq<char>, from: int, class: CharClass)
    requires
        0 <= from <= s.len(),
    ensures
        from <= run_end(s, from, class) <= s.len(),
    decreases s.len() - from,
{
    if from < s.len() && class.contains(s[from]) {
        lemma_run_end_bounds(s, from + 1, class);
    }
}

/// A string literal ends behind the place where its inside begins, unless
/// the text ends there, and inside the text.
pub proof fn lemma_string_scan_bounds(s: Seq<char>, i: int)
    requires
        0 <= i <= s.len(),
    ensures
        i <= string_scan(s, i).0 <= s.len(),
        i < s.len() ==> i < string_scan(s, i).0,
    decreases s.len() - i,
{
    if i < s.len() {
        if s[i] == '"' {
        } else if s[i] == '\\' && (char_at(s, i + 1) == '\\' || char_at(s, i + 1) == '"') {
            lemma_string_scan_bounds(s, i + 2);
        } else {
            lemma_string_scan_bounds(s, i + 1);
        }
    }
}

/// Every token holds at least one character and ends inside the text.
pub proof fn lemma_lexeme_bounds(s: Seq<char>, i: int)
    requires
        0 <= i < s.len(),
    ensures
        i < lexeme_at(s, i).end <= s.len(),
{
    reveal(lexeme_at);
    lemma_run_end_bounds(s, i + 1, CharClass::CommentBody);
    lemma_run_end_bounds(s, i + 1, CharClass::Blank);
    lemma_run_end_bounds(s, i + 1, CharClass::IdentContinue);
    lemma_string_scan_bounds(s, i + 1);
    let whole_end = run_end(s, i + 1, CharClass::Digits);
    lemma_run_end_bounds(s, i + 1, CharClass::Digits);
    lemma_run_end_bounds(s, whole_end, CharClass::Letters);
    if whole_end + 2 <= s.len() {
        let float_end = run_end(s, whole_end + 2, CharClass::Digits);
        lemma_run_end_bounds(s, whole_end + 2, CharClass::Digits);
        lemma_run_end_bounds(s, float_end, CharClass::Letters);
    }
}

/// The tokens of the text from place `i` on, where a token begins.
pub open spec fn tokens_from(s: Seq<char>, i: int) -> Seq<Token>
    decreases s.len() - i,
    via tokens_from_decreases
{
    if 0 <= i < s.len() {
        let lexeme = lexeme_at(s, i);
        seq![Token { kind: lexeme.kind, span: span_between(i, lexeme.end) }] + tokens_from(
            s,
            lexeme.end,
        )
    } else {
        Seq::empty()
    }
}

#[via_fn]
proof fn tokens_from_decreases(s: Seq<char>, i: int) {
    if 0 <= i < s.len() {
        lemma_lexeme_bounds(s, i);
    }
}

/// The errors of the text from place `i` on, where a token begins, in the
/// order of the tokens they belong to.
pub open spec fn errors_from(s: Seq<char>, i: int) -> Seq<LangErrorView>
    decreases s.len() - i,
    via errors_from_decreases
{
    if 0 <= i < s.len() {
        let lexeme = lexeme_at(s, i);
        match lexeme.error {
            Some(error) => seq![error] + errors_from(s, lexeme.end),
            None => errors_from(s, lexeme.end),
        }
    } else {
        Seq::empty()
    }
}

#[via_fn]
proof fn errors_from_decreases(s: Seq<char>, i: int) {
    if 0 <= i < s.len() {
        lemma_lexeme_bounds(s, i);
    }
}

/// The tokens that the text consists of.
pub open spec fn tokens_of(s: Seq<char>) -> Seq<Token> {
    tokens_from(s, 0)
}

/// The lexical errors of the text.
pub open spec fn errors_of(s: Seq<char>) -> Seq<LangErrorView> {
    errors_from(s, 0)
}

} // verus!
