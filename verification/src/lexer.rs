//! The lexer: one pass over a source text that yields its tokens and its
//! lexical errors.

use crate::chars::{to_chars, xid_start, CharClass};
use crate::error::{view_of, ErrorSink, LangError, LangErrorView};
use crate::grammar::{
    char_at, errors_from, errors_of, lemma_lexeme_bounds, lemma_run_end_bounds, lexeme_at,
    number_at, run_end, span_between, string_scan, symbol_kind, tokens_from, tokens_of,
    with_suffix, word_kind,
};
use crate::span::Span;
use crate::theorems::{theorem_tokens_cover_text, tiles};
pub use crate::token::{Token, TokenKind};
use vstd::prelude::*;
use vstd::string::StrSliceExecFns;

verus! {

/// Splits `source` into its tokens and collects its lexical errors.
///
/// The tokens cover the whole text, white space and comments included. An
/// error never stops the scan: the token it belongs to is produced, and the
/// error is pushed into the sink that is returned beside the tokens.
pub fn lex(source: &str) -> (result: (Vec<Token>, ErrorSink))
    requires
        source@.len() <= u32::MAX,
    ensures
        result.0@ == tokens_of(source@),
        result.1@ == errors_of(source@),
        tiles(result.0@, 0, source@.len() as int),
{
    proof {
        theorem_tokens_cover_text(source@);
    }
    let mut lexer = Lexer::new(source);
    let mut tokens: Vec<Token> = Vec::new();
    loop
        invariant
            lexer.wf(),
            lexer.start == lexer.current,
            lexer.source@ == source@,
            tokens@ + tokens_from(source@, lexer.current as int) == tokens_of(source@),
            lexer.errors@ + errors_from(source@, lexer.current as int) == errors_of(source@),
        ensures
            tokens@ == tokens_of(source@),
            lexer.errors@ == errors_of(source@),
        decreases source@.len() - lexer.current,
    {
        let ghost before = lexer.current as int;
        let ghost found = tokens@;
        let ghost known = lexer.errors@;
        match lexer.consume_token() {
            None => {
                assert(tokens@ + Seq::<Token>::empty() == tokens@);
                assert(lexer.errors@ + Seq::<LangErrorView>::empty() == lexer.errors@);
                break ;
            },
            Some((token, error)) => {
                proof {
                    lemma_lexeme_bounds(source@, before);
                    let rest = tokens_from(source@, lexer.current as int);
                    assert(found.push(token) + rest == found + (seq![token] + rest));
                }
                tokens.push(token);
                match error {
                    Some(error) => {
                        proof {
                            let rest = errors_from(source@, lexer.current as int);
                            assert(known.push(error@) + rest == known + (seq![error@] + rest));
                        }
                        lexer.errors.push(error);
                    },
                    None => {},
                }
            },
        }
    }
    (tokens, lexer.errors)
}

/// The cursor of one pass: the text, the place where the token in hand
/// began, the place behind the last character consumed, and the errors
/// found so far.
struct Lexer {
    source: Vec<char>,
    start: u32,
    current: u32,
    errors: ErrorSink,
}

impl Lexer {
    /// The token in hand begins at or before the cursor, and the cursor is
    /// inside a text whose places fit a span.
    spec fn wf(&self) -> bool {
        self.start <= self.current <= self.source@.len() <= u32::MAX
    }

    /// Whether `later` is this lexer moved on to place `current`, with the
    /// text, the beginning of the token in hand and the errors unchanged.
    spec fn advanced_to(&self, later: &Lexer, current: int) -> bool {
        &&& later.source == self.source
        &&& later.start == self.start
        &&& later.current == current
        &&& later.errors == self.errors
    }

    /// The characters of the token in hand.
    spec fn text(&self) -> Seq<char> {
        self.source@.subrange(self.start as int, self.current as int)
    }

    /// A lexer at the beginning of `source`, with no error found yet.
    fn new(source: &str) -> (lexer: Self)
        requires
            source@.len() <= u32::MAX,
        ensures
            lexer.wf(),
            lexer.source@ == source@,
            lexer.start == 0,
            lexer.current == 0,
            lexer.errors@ == Seq::<LangErrorView>::empty(),
    {
        Self { source: to_chars(source), start: 0, current: 0, errors: ErrorSink::new() }
    }

    /// Whether the cursor is at the end of the text.
    fn is_eof(&self) -> (b: bool)
        requires
            self.wf(),
        ensures
            b == (self.current == self.source@.len()),
    {
        self.current as usize >= self.source.len()
    }

    /// The character at the cursor, or NUL at the end of the text.
    fn first(&self) -> (c: char)
        requires
            self.wf(),
        ensures
            c == char_at(self.source@, self.current as int),
    {
        if (self.current as usize) < self.source.len() {
            self.source[self.current as usize]
        } else {
            '\0'
        }
    }

    /// The character behind the one at the cursor, or NUL where the text
    /// has none.
    fn second(&self) -> (c: char)
        requires
            self.wf(),
        ensures
            c == char_at(self.source@, self.current + 1),
    {
        let at: usize = self.current as usize;
        if at < self.source.len() && at + 1 < self.source.len() {
            self.source[at + 1]
        } else {
            '\0'
        }
    }

    /// Ends the token in hand: its span is returned and the next token
    /// begins at the cursor.
    fn finish_token(&mut self) -> (span: Span)
        requires
            old(self).wf(),
        ensures
            span == span_between(old(self).start as int, old(self).current as int),
            span.wf(),
            final(self).wf(),
            final(self).source == old(self).source,
            final(self).start == old(self).current,
            final(self).current == old(self).current,
            final(self).errors == old(self).errors,
    {
        let span = Span { start: self.start, end: self.current };
        self.start = self.current;
        span
    }

    /// Consumes the character at the cursor, if the text has one there.
    fn bump(&mut self) -> (c: Option<char>)
        requires
            old(self).wf(),
        ensures
            final(self).wf(),
            old(self).current < old(self).source@.len() ==> c == Some(
                old(self).source@[old(self).current as int],
            ) && old(self).advanced_to(final(self), old(self).current + 1),
            old(self).current == old(self).source@.len() ==> c is None && *final(self) == *old(
                self,
            ),
    {
        if (self.current as usize) < self.source.len() {
            let c = self.source[self.current as usize];
            self.current = self.current + 1;
            Some(c)
        } else {
            None
        }
    }

    /// Consumes the second character of a two-character token of `kind`.
    fn bump_with(&mut self, kind: TokenKind) -> (given: TokenKind)
        requires
            old(self).wf(),
            old(self).current < old(self).source@.len(),
        ensures
            given == kind,
            final(self).wf(),
            old(self).advanced_to(final(self), old(self).current + 1),
    {
        self.bump();
        kind
    }

    /// Consumes the longest run of characters of `class` at the cursor.
    fn eat_while(&mut self, class: CharClass)
        requires
            old(self).wf(),
        ensures
            final(self).wf(),
            old(self).advanced_to(
                final(self),
                run_end(old(self).source@, old(self).current as int, class),
            ),
    {
        while !self.is_eof() && class.holds(self.first())
            invariant
                self.wf(),
                self.source == old(self).source,
                self.start == old(self).start,
                self.errors == old(self).errors,
                old(self).current <= self.current,
                run_end(self.source@, self.current as int, class) == run_end(
                    old(self).source@,
                    old(self).current as int,
                    class,
                ),
            decreases self.source@.len() - self.current,
        {
            self.bump();
        }
    }

    /// Consumes the longest run of characters of `class` at the cursor and
    /// appends them to `text`.
    fn eat_while_and(&mut self, class: CharClass, text: &mut String)
        requires
            old(self).wf(),
        ensures
            final(self).wf(),
            old(self).advanced_to(
                final(self),
                run_end(old(self).source@, old(self).current as int, class),
            ),
            final(text)@ == old(text)@ + old(self).source@.subrange(
                old(self).current as int,
                final(self).current as int,
            ),
    {
        assert(text@ == old(text)@ + self.source@.subrange(
            self.current as int,
            self.current as int,
        ));
        while !self.is_eof() && class.holds(self.first())
            invariant
                self.wf(),
                self.source == old(self).source,
                self.start == old(self).start,
                self.errors == old(self).errors,
                old(self).current <= self.current,
                run_end(self.source@, self.current as int, class) == run_end(
                    old(self).source@,
                    old(self).current as int,
                    class,
                ),
                text@ == old(text)@ + self.source@.subrange(
                    old(self).current as int,
                    self.current as int,
                ),
            decreases self.source@.len() - self.current,
        {
            text.push(self.first());
            self.bump();
            assert(text@ == old(text)@ + self.source@.subrange(
                old(self).current as int,
                self.current as int,
            ));
        }
    }

    /// Whether the characters from place `from` to the cursor spell `word`.
    fn spells(&self, from: u32, word: &str) -> (b: bool)
        requires
            self.wf(),
            from <= self.current,
        ensures
            b == (self.source@.subrange(from as int, self.current as int) == word@),
    {
        let ghost text = self.source@.subrange(from as int, self.current as int);
        let len = word.unicode_len();
        let start: usize = from as usize;
        if (self.current - from) as usize != len {
            assert(text.len() != word@.len());
            return false;
        }
        let mut k: usize = 0;
        while k < len
            invariant
                self.wf(),
                start == from,
                from <= self.current,
                text == self.source@.subrange(from as int, self.current as int),
                len == word@.len(),
                len == self.current - from,
                k <= len,
                forall|j: int| 0 <= j < k ==> text[j] == word@[j],
            decreases len - k,
        {
            if self.source[start + k] != word.get_char(k) {
                assert(text[k as int] != word@[k as int]);
                return false;
            }
            k = k + 1;
        }
        assert(text =~= word@);
        true
    }

    /// Consumes the rest of the word in hand and says what kind it is.
    fn ident(&mut self) -> (kind: TokenKind)
        requires
            old(self).wf(),
        ensures
            final(self).wf(),
            old(self).advanced_to(
                final(self),
                run_end(old(self).source@, old(self).current as int, CharClass::IdentContinue),
            ),
            kind == word_kind(final(self).text()),
    {
        self.eat_while(CharClass::IdentContinue);
        let from = self.start;
        if self.spells(from, "true") || self.spells(from, "false") {
            TokenKind::Bool
        } else if self.spells(from, "let") {
            TokenKind::LetKw
        } else if self.spells(from, "fn") {
            TokenKind::FnKw
        } else if self.spells(from, "if") {
            TokenKind::IfKw
        } else if self.spells(from, "else") {
            TokenKind::ElseKw
        } else if self.spells(from, "for") {
            TokenKind::ForKw
        } else if self.spells(from, "in") {
            TokenKind::InKw
        } else if self.spells(from, "while") {
            TokenKind::WhileKw
        } else if self.spells(from, "String") {
            TokenKind::StringTy
        } else if self.spells(from, "Int") {
            TokenKind::IntTy
        } else if self.spells(from, "Float") {
            TokenKind::FloatTy
        } else if self.spells(from, "Bool") {
            TokenKind::BoolTy
        } else if self.spells(from, "Size") {
            TokenKind::SizeTy
        } else if self.spells(from, "Duration") {
            TokenKind::DurationTy
        } else if self.spells(from, "Date") {
            TokenKind::DateTy
        } else if self.spells(from, "Time") {
            TokenKind::TimeTy
        } else if self.spells(from, "DateTime") {
            TokenKind::DateTimeTy
        } else {
            TokenKind::Ident
        }
    }

    /// Consumes the inside of the string literal in hand and its closing
    /// quote, and reports the literal as unterminated where the text ends
    /// before that quote.
    fn string(&mut self) -> (error: Option<LangError>)
        requires
            old(self).wf(),
            old(self).start < old(self).current,
        ensures
            final(self).wf(),
            old(self).advanced_to(
                final(self),
                string_scan(old(self).source@, old(self).current as int).0,
            ),
            view_of(error) == if string_scan(old(self).source@, old(self).current as int).1 {
                None
            } else {
                Some(
                    LangErrorView::UnterminatedString {
                        span: span_between(old(self).start as int, old(self).start + 1),
                    },
                )
            },
    {
        loop
            invariant
                self.wf(),
                self.source == old(self).source,
                self.start == old(self).start,
                self.errors == old(self).errors,
                old(self).current <= self.current,
                string_scan(self.source@, self.current as int) == string_scan(
                    old(self).source@,
                    old(self).current as int,
                ),
            ensures
                self.wf(),
                self.source == old(self).source,
                self.start == old(self).start,
                self.errors == old(self).errors,
                self.current == self.source@.len(),
                string_scan(old(self).source@, old(self).current as int) == (
                    self.source@.len() as int,
                    false,
                ),
            decreases self.source@.len() - self.current,
        {
            match self.bump() {
                None => {
                    break ;
                },
                Some(c) => {
                    if c == '"' {
                        return None;
                    }
                    if c == '\\' && (self.first() == '\\' || self.first() == '"') {
                        self.bump();
                    }
                },
            }
        }
        let span = Span { start: self.start, end: self.start + 1 };
        Some(LangError::UnterminatedString { span })
    }

    /// Consumes the unit suffix at the cursor, if there is one, and decides
    /// the kind of the number in hand, whose digits are of kind `kind`.
    fn suffix(&mut self, kind: TokenKind) -> (result: (TokenKind, Option<LangError>))
        requires
            old(self).wf(),
        ensures
            final(self).wf(),
            old(self).advanced_to(
                final(self),
                with_suffix(old(self).source@, kind, old(self).current as int).end,
            ),
            result.0 == with_suffix(old(self).source@, kind, old(self).current as int).kind,
            view_of(result.1) == with_suffix(
                old(self).source@,
                kind,
                old(self).current as int,
            ).error,
    {
        if self.first().is_alphabetic() {
            let from = self.current;
            let mut suffix = String::new();
            proof {
                lemma_run_end_bounds(self.source@, from as int, CharClass::Letters);
            }
            self.eat_while_and(CharClass::Letters, &mut suffix);
            assert(suffix@ == self.source@.subrange(from as int, self.current as int));
            if self.spells(from, "b") || self.spells(from, "kb") || self.spells(from, "mb")
                || self.spells(from, "gb") || self.spells(from, "kib") || self.spells(
                from,
                "mib",
            ) || self.spells(from, "gib") {
                (TokenKind::Size, None)
            } else if self.spells(from, "day") || self.spells(from, "hr") || self.spells(
                from,
                "min",
            ) || self.spells(from, "s") || self.spells(from, "ms") || self.spells(from, "us")
                || self.spells(from, "ns") {
                (TokenKind::Duration, None)
            } else {
                let span = Span { start: from, end: self.current };
                (kind, Some(LangError::UnknownNumericSuffix { suffix, span }))
            }
        } else {
            (kind, None)
        }
    }

    /// Consumes the rest of the number in hand and says what kind it is.
    fn numeric(&mut self) -> (result: (TokenKind, Option<LangError>))
        requires
            old(self).wf(),
            old(self).start + 1 == old(self).current,
        ensures
            final(self).wf(),
            old(self).advanced_to(
                final(self),
                number_at(old(self).source@, old(self).start as int).end,
            ),
            result.0 == number_at(old(self).source@, old(self).start as int).kind,
            view_of(result.1) == number_at(old(self).source@, old(self).start as int).error,
    {
        self.eat_while(CharClass::Digits);
        if self.first() == '.' {
            let next = self.second();
            self.bump();
            if '0' <= next && next <= '9' {
                self.bump();
                self.eat_while(CharClass::Digits);
                self.suffix(TokenKind::Float)
            } else {
                let span = Span { start: self.start, end: self.current };
                (TokenKind::Float, Some(LangError::FloatWithoutFractional { span }))
            }
        } else {
            self.suffix(TokenKind::Int)
        }
    }

    /// Consumes the next token. Gives the token and the error found in it,
    /// if any, or nothing at the end of the text.
    fn consume_token(&mut self) -> (result: Option<(Token, Option<LangError>)>)
        requires
            old(self).wf(),
            old(self).start == old(self).current,
        ensures
            final(self).wf(),
            final(self).source == old(self).source,
            final(self).errors == old(self).errors,
            final(self).start == final(self).current,
            match result {
                None => old(self).current == old(self).source@.len() && final(self).current
                    == old(self).current,
                Some((token, error)) => {
                    let lexeme = lexeme_at(old(self).source@, old(self).current as int);
                    &&& old(self).current < old(self).source@.len()
                    &&& final(self).current == lexeme.end
                    &&& token == Token {
                        kind: lexeme.kind,
                        span: span_between(old(self).current as int, lexeme.end),
                    }
                    &&& view_of(error) == lexeme.error
                },
            },
    {
        let first = match self.bump() {
            Some(c) => c,
            None => {
                return None;
            },
        };
        proof {
            reveal(lexeme_at);
        }
        let mut error: Option<LangError> = None;
        let kind = if first == '\n' {
            TokenKind::Newline
        } else if first == '/' && self.first() == '/' {
            self.eat_while(CharClass::CommentBody);
            TokenKind::Comment
        } else if first.is_whitespace() {
            self.eat_while(CharClass::Blank);
            TokenKind::Whitespace
        } else if let Some(kind) = symbol(first) {
            kind
        } else if first == '|' {
            if self.first() == '|' {
                self.bump_with(TokenKind::Or)
            } else {
                TokenKind::Pipe
            }
        } else if first == '&' && self.first() == '&' {
            self.bump_with(TokenKind::And)
        } else if first == '"' {
            error = self.string();
            TokenKind::String
        } else if '0' <= first && first <= '9' {
            let (kind, found) = self.numeric();
            error = found;
            kind
        } else if xid_start(first) || first == '_' {
            self.ident()
        } else {
            TokenKind::Unknown
        };
        let span = self.finish_token();
        Some((Token { kind, span }, error))
    }
}

/// The kind of a symbol that is one character whatever follows it.
fn symbol(c: char) -> (kind: Option<TokenKind>)
    ensures
        kind == symbol_kind(c),
{
    if c == '(' {
        Some(TokenKind::OpenParen)
    } else if c == ')' {
        Some(TokenKind::CloseParen)
    } else if c == '[' {
        Some(TokenKind::OpenBracket)
    } else if c == ']' {
        Some(TokenKind::CloseBracket)
    } else if c == ':' {
        Some(TokenKind::Colon)
    } else if c == ',' {
        Some(TokenKind::Comma)
    } else if c == '=' {
        Some(TokenKind::Equals)
    } else if c == '+' {
        Some(TokenKind::Add)
    } else if c == '-' {
        Some(TokenKind::Sub)
    } else if c == '*' {
        Some(TokenKind::Mul)
    } else if c == '/' {
        Some(TokenKind::Div)
    } else if c == '^' {
        Some(TokenKind::Pow)
    } else if c == '%' {
        Some(TokenKind::Rem)
    } else if c == '!' {
        Some(TokenKind::Not)
    } else {
        None
    }
}

} // verus!
