//! What holds of every text: theorems about the lexical grammar, and so
//! about what the lexer returns.

use crate::chars::{
    is_ascii_digit, is_letter, is_white_space, is_xid_continue, is_xid_start, CharClass,
};
use crate::error::LangErrorView;
use crate::grammar::{
    char_at, errors_from, errors_of, is_duration_suffix, is_size_suffix, lemma_lexeme_bounds,
    lemma_run_end_bounds, lemma_string_scan_bounds, lexeme_at, number_at, run_end, span_between,
    string_scan, tokens_from, tokens_of, with_suffix, word_kind,
};
use crate::token::{Token, TokenKind};
use vstd::prelude::*;

verus! {

/// Whether the spans of `tokens` lie one behind the other from place `from`
/// to place `to`: the first begins at `from`, each begins where the one
/// before it ended, none is empty, and the last ends at `to`.
pub open spec fn tiles(tokens: Seq<Token>, from: int, to: int) -> bool {
    &&& from <= to
    &&& tokens.len() == 0 <==> from == to
    &&& tokens.len() > 0 ==> tokens[0].span.start == from && tokens.last().span.end == to
    &&& forall|k: int|
        0 <= k < tokens.len() ==> (#[trigger] tokens[k]).span.start < tokens[k].span.end
    &&& forall|j: int, k: int|
        0 <= j && k == j + 1 && k < tokens.len() ==> (#[trigger] tokens[j]).span.end == (
        #[trigger] tokens[k]).span.start
}

/// The characters that the spans of `tokens` cut out of `s`, one piece
/// behind the other.
pub open spec fn spanned_text(s: Seq<char>, tokens: Seq<Token>) -> Seq<char>
    decreases tokens.len(),
{
    if tokens.len() == 0 {
        Seq::empty()
    } else {
        s.subrange(tokens[0].span.start as int, tokens[0].span.end as int) + spanned_text(
            s,
            tokens.drop_first(),
        )
    }
}

/// The tokens from a place where a token begins tile the rest of the text,
/// and their pieces put together are that rest.
pub proof fn lemma_tokens_from_tile(s: Seq<char>, i: int)
    requires
        0 <= i <= s.len() <= u32::MAX,
    ensures
        tiles(tokens_from(s, i), i, s.len() as int),
        spanned_text(s, tokens_from(s, i)) == s.subrange(i, s.len() as int),
    decreases s.len() - i,
{
    if i < s.len() {
        let lexeme = lexeme_at(s, i);
        lemma_lexeme_bounds(s, i);
        lemma_tokens_from_tile(s, lexeme.end);
        let head = Token { kind: lexeme.kind, span: span_between(i, lexeme.end) };
        let rest = tokens_from(s, lexeme.end);
        let all = tokens_from(s, i);
        assert(all == seq![head] + rest);
        assert(all[0] == head);
        assert(all.drop_first() == rest);
        assert forall|k: int| 0 <= k < all.len() implies (#[trigger] all[k]).span.start
            < all[k].span.end by {
            if k > 0 {
                assert(all[k] == rest[k - 1]);
            }
        }
        assert forall|j: int, k: int| 0 <= j && k == j + 1 && k < all.len() implies (
        #[trigger] all[j]).span.end == (#[trigger] all[k]).span.start by {
            assert(all[k] == rest[k - 1]);
            if j > 0 {
                assert(all[j] == rest[j - 1]);
            }
        }
        if rest.len() > 0 {
            assert(all.last() == rest.last());
        }
        assert(s.subrange(i, lexeme.end) + s.subrange(lexeme.end, s.len() as int) == s.subrange(
            i,
            s.len() as int,
        ));
    } else {
        assert(s.subrange(i, s.len() as int) == Seq::<char>::empty());
    }
}

/// Coverage: the tokens of a text tile it from its first character to its
/// last, with no gap and no overlap, and the pieces they span, put together
/// in order, are the text.
pub proof fn theorem_tokens_cover_text(s: Seq<char>)
    requires
        s.len() <= u32::MAX,
    ensures
        tiles(tokens_of(s), 0, s.len() as int),
        spanned_text(s, tokens_of(s)) == s,
{
    lemma_tokens_from_tile(s, 0);
    assert(s.subrange(0, s.len() as int) == s);
}

/// A run is the longest one: where every character from `from` up to `to`
/// is of the class and the text ends at `to` or holds a character outside
/// the class there, the run that begins at `from` ends at `to`.
pub proof fn lemma_run_end_is(s: Seq<char>, from: int, to: int, class: CharClass)
    requires
        0 <= from <= to <= s.len(),
        forall|k: int| from <= k < to ==> class.contains(#[trigger] s[k]),
        to == s.len() || !class.contains(s[to]),
    ensures
        run_end(s, from, class) == to,
    decreases to - from,
{
    if from < to {
        lemma_run_end_is(s, from + 1, to, class);
    }
}

/// Every character of a run is of its class, and the run stops only at the
/// end of the text or before a character outside the class.
pub proof fn lemma_run_end_holds(s: Seq<char>, from: int, class: CharClass)
    requires
        0 <= from <= s.len(),
    ensures
        from <= run_end(s, from, class) <= s.len(),
        forall|k: int| from <= k < run_end(s, from, class) ==> class.contains(#[trigger] s[k]),
        run_end(s, from, class) == s.len() || !class.contains(s[run_end(s, from, class)]),
    decreases s.len() - from,
{
    if from < s.len() && class.contains(s[from]) {
        lemma_run_end_holds(s, from + 1, class);
    }
}

/// A run read in a piece of the text that holds all of it is the same run.
pub proof fn lemma_run_end_in_piece(s: Seq<char>, lo: int, hi: int, from: int, class: CharClass)
    requires
        0 <= lo <= from <= hi <= s.len(),
        run_end(s, from, class) <= hi,
    ensures
        run_end(s.subrange(lo, hi), from - lo, class) == run_end(s, from, class) - lo,
{
    let end = run_end(s, from, class);
    let piece = s.subrange(lo, hi);
    lemma_run_end_holds(s, from, class);
    assert forall|k: int| from - lo <= k < end - lo implies class.contains(#[trigger] piece[k]) by {
        assert(piece[k] == s[k + lo]);
    }
    if end < hi {
        assert(piece[end - lo] == s[end]);
    }
    lemma_run_end_is(piece, from - lo, end - lo, class);
}

/// A string literal read in the piece of the text that ends where the
/// literal ends is the same literal.
pub proof fn lemma_string_scan_in_piece(s: Seq<char>, lo: int, j: int)
    requires
        0 <= lo <= j <= s.len(),
    ensures
        string_scan(s.subrange(lo, string_scan(s, j).0), j - lo) == (
            string_scan(s, j).0 - lo,
            string_scan(s, j).1,
        ),
    decreases s.len() - j,
{
    let end = string_scan(s, j).0;
    lemma_string_scan_bounds(s, j);
    let piece = s.subrange(lo, end);
    if j < s.len() {
        assert(piece[j - lo] == s[j]);
        if s[j] == '"' {
        } else if s[j] == '\\' && (char_at(s, j + 1) == '\\' || char_at(s, j + 1) == '"') {
            lemma_string_scan_bounds(s, j + 2);
            assert(piece[j + 1 - lo] == s[j + 1]);
            lemma_string_scan_in_piece(s, lo, j + 2);
        } else {
            lemma_string_scan_bounds(s, j + 1);
            if j + 1 < end {
                assert(piece[j + 1 - lo] == s[j + 1]);
            }
            lemma_string_scan_in_piece(s, lo, j + 1);
        }
    }
}

/// The unit suffix of a number read in a piece of the text that ends where
/// the suffix ends is the same suffix.
proof fn lemma_with_suffix_in_piece(s: Seq<char>, lo: int, body_end: int, kind: TokenKind)
    requires
        0 <= lo <= body_end <= s.len(),
    ensures
        ({
            let whole = with_suffix(s, kind, body_end);
            let alone = with_suffix(s.subrange(lo, whole.end), kind, body_end - lo);
            &&& body_end <= whole.end <= s.len()
            &&& alone.kind == whole.kind
            &&& alone.end == whole.end - lo
            &&& alone.error is Some <==> whole.error is Some
        }),
{
    let whole = with_suffix(s, kind, body_end);
    lemma_run_end_bounds(s, body_end, CharClass::Letters);
    let piece = s.subrange(lo, whole.end);
    if is_letter(char_at(s, body_end)) {
        let end = run_end(s, body_end, CharClass::Letters);
        lemma_run_end_bounds(s, body_end + 1, CharClass::Letters);
        assert(piece[body_end - lo] == s[body_end]);
        lemma_run_end_in_piece(s, lo, end, body_end, CharClass::Letters);
        assert(piece.subrange(body_end - lo, end - lo) == s.subrange(body_end, end));
    } else {
        assert(char_at(piece, body_end - lo) == '\0');
    }
}

/// The number read in the piece of the text that it covers is the same
/// number.
proof fn lemma_number_in_piece(s: Seq<char>, i: int)
    requires
        0 <= i < s.len(),
    ensures
        ({
            let whole = number_at(s, i);
            let alone = number_at(s.subrange(i, whole.end), 0);
            &&& i < whole.end <= s.len()
            &&& alone.kind == whole.kind
            &&& alone.end == whole.end - i
            &&& alone.error is Some <==> whole.error is Some
        }),
{
    let whole = number_at(s, i);
    let piece = s.subrange(i, whole.end);
    let whole_end = run_end(s, i + 1, CharClass::Digits);
    lemma_run_end_bounds(s, i + 1, CharClass::Digits);
    if char_at(s, whole_end) == '.' {
        if is_ascii_digit(char_at(s, whole_end + 1)) {
            let float_end = run_end(s, whole_end + 2, CharClass::Digits);
            lemma_run_end_bounds(s, whole_end + 2, CharClass::Digits);
            lemma_with_suffix_in_piece(s, i, float_end, TokenKind::Float);
            lemma_run_end_in_piece(s, i, whole.end, i + 1, CharClass::Digits);
            lemma_run_end_in_piece(s, i, whole.end, whole_end + 2, CharClass::Digits);
            assert(piece[whole_end - i] == s[whole_end]);
            assert(piece[whole_end + 1 - i] == s[whole_end + 1]);
        } else {
            lemma_run_end_in_piece(s, i, whole.end, i + 1, CharClass::Digits);
            assert(piece[whole_end - i] == s[whole_end]);
            assert(char_at(piece, whole_end + 1 - i) == '\0');
        }
    } else {
        lemma_with_suffix_in_piece(s, i, whole_end, TokenKind::Int);
        lemma_run_end_in_piece(s, i, whole.end, i + 1, CharClass::Digits);
        if whole_end < whole.end {
            assert(piece[whole_end - i] == s[whole_end]);
        }
    }
}

/// A token read in the piece of the text that it covers, with nothing
/// before or behind it, is a token of the same kind that covers the piece,
/// and it holds an error there if and only if it holds one in the text.
pub proof fn lemma_lexeme_alone(s: Seq<char>, i: int)
    requires
        0 <= i < s.len(),
    ensures
        ({
            let whole = lexeme_at(s, i);
            let alone = lexeme_at(s.subrange(i, whole.end), 0);
            &&& i < whole.end <= s.len()
            &&& alone.kind == whole.kind
            &&& alone.end == whole.end - i
            &&& alone.error is Some <==> whole.error is Some
        }),
{
    reveal(lexeme_at);
    lemma_lexeme_bounds(s, i);
    let whole = lexeme_at(s, i);
    let piece = s.subrange(i, whole.end);
    assert(piece[0] == s[i]);
    if i + 1 < whole.end {
        assert(piece[1] == s[i + 1]);
    }
    let c = s[i];
    let next = char_at(s, i + 1);
    if c == '\n' {
    } else if c == '/' && next == '/' {
        lemma_run_end_bounds(s, i + 2, CharClass::CommentBody);
        lemma_run_end_in_piece(s, i, whole.end, i + 1, CharClass::CommentBody);
    } else if is_white_space(c) {
        lemma_run_end_in_piece(s, i, whole.end, i + 1, CharClass::Blank);
    } else if c == '"' {
        lemma_string_scan_in_piece(s, i, i + 1);
    } else if is_ascii_digit(c) {
        lemma_number_in_piece(s, i);
    } else if is_xid_start(c) || c == '_' {
        lemma_run_end_in_piece(s, i, whole.end, i + 1, CharClass::IdentContinue);
        assert(piece.subrange(0, whole.end - i) == s.subrange(i, whole.end));
    }
}

/// Every token of a text is what the grammar reads at the place where the
/// token begins.
pub proof fn lemma_token_is_lexeme(s: Seq<char>, i: int, k: int)
    requires
        0 <= i <= s.len() <= u32::MAX,
        0 <= k < tokens_from(s, i).len(),
    ensures
        ({
            let token = tokens_from(s, i)[k];
            let lexeme = lexeme_at(s, token.span.start as int);
            &&& i <= token.span.start < s.len()
            &&& token.kind == lexeme.kind
            &&& token.span.end == lexeme.end
        }),
    decreases s.len() - i,
{
    let lexeme = lexeme_at(s, i);
    lemma_lexeme_bounds(s, i);
    if k > 0 {
        lemma_token_is_lexeme(s, lexeme.end, k - 1);
    }
}

/// Reading a token again: the piece of the text that any one token covers,
/// taken by itself, consists of one token of the same kind.
pub proof fn theorem_token_alone_keeps_its_kind(s: Seq<char>, k: int)
    requires
        s.len() <= u32::MAX,
        0 <= k < tokens_of(s).len(),
    ensures
        ({
            let token = tokens_of(s)[k];
            let piece = s.subrange(token.span.start as int, token.span.end as int);
            tokens_of(piece) == seq![
                Token { kind: token.kind, span: span_between(0, piece.len() as int) },
            ]
        }),
{
    let token = tokens_of(s)[k];
    lemma_token_is_lexeme(s, 0, k);
    let i = token.span.start as int;
    lemma_lexeme_alone(s, i);
    let piece = s.subrange(token.span.start as int, token.span.end as int);
    let alone = lexeme_at(piece, 0);
    assert(tokens_from(piece, alone.end) == Seq::<Token>::empty());
    assert(tokens_of(piece) == seq![Token { kind: alone.kind, span: span_between(0, alone.end) }]
        + Seq::<Token>::empty());
}

/// The keywords and the names of the built-in types.
pub open spec fn is_reserved_word(w: Seq<char>) -> bool {
    w == "let"@ || w == "fn"@ || w == "if"@ || w == "else"@ || w == "for"@ || w == "in"@ || w == "while"@ || w == "String"@ || w == "Int"@ || w == "Float"@ || w == "Bool"@ || w == "Size"@ || w == "Duration"@ || w == "Date"@ || w == "Time"@ || w == "DateTime"@
}

/// Whether a word may begin with `c`: with a character that may start an
/// identifier, or an underscore, and that is no white space.
pub open spec fn starts_word(c: char) -> bool {
    (is_xid_start(c) || c == '_') && !is_white_space(c)
}

/// Whether `w` has the shape of an identifier: a character that a word may
/// begin with, and behind it only characters that may continue an
/// identifier.
pub open spec fn is_word(w: Seq<char>) -> bool {
    &&& w.len() > 0
    &&& starts_word(w[0])
    &&& forall|k: int| 1 <= k < w.len() ==> is_xid_continue(#[trigger] w[k])
}

/// A text that has the shape of an identifier is one token, whose kind the
/// table of words gives, and holds no error.
pub proof fn theorem_word_is_one_token(w: Seq<char>)
    requires
        is_word(w),
        w.len() <= u32::MAX,
    ensures
        tokens_of(w) == seq![Token { kind: word_kind(w), span: span_between(0, w.len() as int) }],
        errors_of(w) == Seq::<LangErrorView>::empty(),
{
    reveal(lexeme_at);
    assert forall|k: int| 1 <= k < w.len() implies CharClass::IdentContinue.contains(
        #[trigger] w[k],
    ) by {}
    lemma_run_end_is(w, 1, w.len() as int, CharClass::IdentContinue);
    assert(w.subrange(0, w.len() as int) == w);
    let lexeme = lexeme_at(w, 0);
    assert(lexeme.end == w.len());
    assert(lexeme.kind == word_kind(w));
    assert(lexeme.error is None);
    assert(tokens_from(w, lexeme.end) == Seq::<Token>::empty());
    assert(errors_from(w, lexeme.end) == Seq::<LangErrorView>::empty());
    assert(tokens_of(w) == seq![Token { kind: lexeme.kind, span: span_between(0, lexeme.end) }]
        + Seq::<Token>::empty());
}

/// How the words of the table are spelled.
proof fn lemma_words_spelled()
    ensures
        "true"@.len() == 4 && "true"@[0] == 't' && "true"@[1] == 'r' && "true"@[2] == 'u' && "true"@[3] == 'e',
        "false"@.len() == 5 && "false"@[0] == 'f' && "false"@[1] == 'a' && "false"@[2] == 'l' && "false"@[3] == 's' && "false"@[4] == 'e',
        "let"@.len() == 3 && "let"@[0] == 'l' && "let"@[1] == 'e' && "let"@[2] == 't',
        "fn"@.len() == 2 && "fn"@[0] == 'f' && "fn"@[1] == 'n',
        "if"@.len() == 2 && "if"@[0] == 'i' && "if"@[1] == 'f',
        "else"@.len() == 4 && "else"@[0] == 'e' && "else"@[1] == 'l' && "else"@[2] == 's' && "else"@[3] == 'e',
        "for"@.len() == 3 && "for"@[0] == 'f' && "for"@[1] == 'o' && "for"@[2] == 'r',
        "in"@.len() == 2 && "in"@[0] == 'i' && "in"@[1] == 'n',
        "while"@.len() == 5 && "while"@[0] == 'w' && "while"@[1] == 'h' && "while"@[2] == 'i' && "while"@[3] == 'l' && "while"@[4] == 'e',
        "String"@.len() == 6 && "String"@[0] == 'S' && "String"@[1] == 't' && "String"@[2] == 'r' && "String"@[3] == 'i' && "String"@[4] == 'n' && "String"@[5] == 'g',
        "Int"@.len() == 3 && "Int"@[0] == 'I' && "Int"@[1] == 'n' && "Int"@[2] == 't',
        "Float"@.len() == 5 && "Float"@[0] == 'F' && "Float"@[1] == 'l' && "Float"@[2] == 'o' && "Float"@[3] == 'a' && "Float"@[4] == 't',
        "Bool"@.len() == 4 && "Bool"@[0] == 'B' && "Bool"@[1] == 'o' && "Bool"@[2] == 'o' && "Bool"@[3] == 'l',
        "Size"@.len() == 4 && "Size"@[0] == 'S' && "Size"@[1] == 'i' && "Size"@[2] == 'z' && "Size"@[3] == 'e',
        "Duration"@.len() == 8 && "Duration"@[0] == 'D' && "Duration"@[1] == 'u' && "Duration"@[2] == 'r' && "Duration"@[3] == 'a' && "Duration"@[4] == 't' && "Duration"@[5] == 'i' && "Duration"@[6] == 'o' && "Duration"@[7] == 'n',
        "Date"@.len() == 4 && "Date"@[0] == 'D' && "Date"@[1] == 'a' && "Date"@[2] == 't' && "Date"@[3] == 'e',
        "Time"@.len() == 4 && "Time"@[0] == 'T' && "Time"@[1] == 'i' && "Time"@[2] == 'm' && "Time"@[3] == 'e',
        "DateTime"@.len() == 8 && "DateTime"@[0] == 'D' && "DateTime"@[1] == 'a' && "DateTime"@[2] == 't' && "DateTime"@[3] == 'e' && "DateTime"@[4] == 'T' && "DateTime"@[5] == 'i' && "DateTime"@[6] == 'm' && "DateTime"@[7] == 'e',
{
    reveal_strlit("true");
    reveal_strlit("false");
    reveal_strlit("let");
    reveal_strlit("fn");
    reveal_strlit("if");
    reveal_strlit("else");
    reveal_strlit("for");
    reveal_strlit("in");
    reveal_strlit("while");
    reveal_strlit("String");
    reveal_strlit("Int");
    reveal_strlit("Float");
    reveal_strlit("Bool");
    reveal_strlit("Size");
    reveal_strlit("Duration");
    reveal_strlit("Date");
    reveal_strlit("Time");
    reveal_strlit("DateTime");
}

/// Every reserved word has the shape of an identifier, and the table of
/// words gives it the kind of its own, never `Ident`.
pub proof fn lemma_reserved_words(w: Seq<char>)
    requires
        is_reserved_word(w),
    ensures
        is_word(w),
        word_kind(w) != TokenKind::Ident,
        w == "let"@ ==> word_kind(w) == TokenKind::LetKw,
        w == "fn"@ ==> word_kind(w) == TokenKind::FnKw,
        w == "if"@ ==> word_kind(w) == TokenKind::IfKw,
        w == "else"@ ==> word_kind(w) == TokenKind::ElseKw,
        w == "for"@ ==> word_kind(w) == TokenKind::ForKw,
        w == "in"@ ==> word_kind(w) == TokenKind::InKw,
        w == "while"@ ==> word_kind(w) == TokenKind::WhileKw,
        w == "String"@ ==> word_kind(w) == TokenKind::StringTy,
        w == "Int"@ ==> word_kind(w) == TokenKind::IntTy,
        w == "Float"@ ==> word_kind(w) == TokenKind::FloatTy,
        w == "Bool"@ ==> word_kind(w) == TokenKind::BoolTy,
        w == "Size"@ ==> word_kind(w) == TokenKind::SizeTy,
        w == "Duration"@ ==> word_kind(w) == TokenKind::DurationTy,
        w == "Date"@ ==> word_kind(w) == TokenKind::DateTy,
        w == "Time"@ ==> word_kind(w) == TokenKind::TimeTy,
        w == "DateTime"@ ==> word_kind(w) == TokenKind::DateTimeTy,
{
    lemma_words_spelled();
}

/// Keywords and identifiers part the words between them. A reserved word
/// standing alone is one token of the kind of that word. Any other text
/// that has the shape of an identifier is one `Ident` token, but for `true`
/// and `false`, which are one `Bool` token.
pub proof fn theorem_keywords_and_identifiers(w: Seq<char>)
    requires
        is_word(w) || is_reserved_word(w),
        w.len() <= u32::MAX,
    ensures
        tokens_of(w) == seq![Token { kind: word_kind(w), span: span_between(0, w.len() as int) }],
        errors_of(w) == Seq::<LangErrorView>::empty(),
        is_reserved_word(w) ==> word_kind(w) != TokenKind::Ident && word_kind(w)
            != TokenKind::Bool,
        w == "true"@ || w == "false"@ ==> word_kind(w) == TokenKind::Bool,
        !is_reserved_word(w) && w != "true"@ && w != "false"@ ==> word_kind(w)
            == TokenKind::Ident,
        w == "let"@ ==> word_kind(w) == TokenKind::LetKw,
        w == "fn"@ ==> word_kind(w) == TokenKind::FnKw,
        w == "if"@ ==> word_kind(w) == TokenKind::IfKw,
        w == "else"@ ==> word_kind(w) == TokenKind::ElseKw,
        w == "for"@ ==> word_kind(w) == TokenKind::ForKw,
        w == "in"@ ==> word_kind(w) == TokenKind::InKw,
        w == "while"@ ==> word_kind(w) == TokenKind::WhileKw,
        w == "String"@ ==> word_kind(w) == TokenKind::StringTy,
        w == "Int"@ ==> word_kind(w) == TokenKind::IntTy,
        w == "Float"@ ==> word_kind(w) == TokenKind::FloatTy,
        w == "Bool"@ ==> word_kind(w) == TokenKind::BoolTy,
        w == "Size"@ ==> word_kind(w) == TokenKind::SizeTy,
        w == "Duration"@ ==> word_kind(w) == TokenKind::DurationTy,
        w == "Date"@ ==> word_kind(w) == TokenKind::DateTy,
        w == "Time"@ ==> word_kind(w) == TokenKind::TimeTy,
        w == "DateTime"@ ==> word_kind(w) == TokenKind::DateTimeTy,
{
    if is_reserved_word(w) {
        lemma_reserved_words(w);
    }
    theorem_word_is_one_token(w);
}

/// Whether `n` is the text of a whole number: a digit, and behind it only
/// digits and underscores.
pub open spec fn is_integer_text(n: Seq<char>) -> bool {
    &&& n.len() > 0
    &&& is_ascii_digit(n[0])
    &&& forall|k: int| 1 <= k < n.len() ==> CharClass::Digits.contains(#[trigger] n[k])
}

/// Whether `n` is the text of a number with a fraction: a whole number, a
/// dot at place `dot`, and behind it a whole number again.
pub open spec fn is_float_text(n: Seq<char>, dot: int) -> bool {
    &&& 0 < dot < n.len()
    &&& n[dot] == '.'
    &&& is_integer_text(n.subrange(0, dot))
    &&& is_integer_text(n.subrange(dot + 1, n.len() as int))
}

/// The kind of the number that `n` is the text of, if it is one.
pub open spec fn number_kind(n: Seq<char>) -> Option<TokenKind> {
    if is_integer_text(n) {
        Some(TokenKind::Int)
    } else if exists|dot: int| is_float_text(n, dot) {
        Some(TokenKind::Float)
    } else {
        None
    }
}

/// Whether `r` is a run of letters, and not empty.
pub open spec fn is_letters(r: Seq<char>) -> bool {
    &&& r.len() > 0
    &&& forall|k: int| 0 <= k < r.len() ==> is_letter(#[trigger] r[k])
}

/// How the unit suffixes are spelled.
proof fn lemma_units_spelled()
    ensures
        "b"@.len() == 1 && "b"@[0] == 'b',
        "kb"@.len() == 2 && "kb"@[0] == 'k' && "kb"@[1] == 'b',
        "mb"@.len() == 2 && "mb"@[0] == 'm' && "mb"@[1] == 'b',
        "gb"@.len() == 2 && "gb"@[0] == 'g' && "gb"@[1] == 'b',
        "kib"@.len() == 3 && "kib"@[0] == 'k' && "kib"@[1] == 'i' && "kib"@[2] == 'b',
        "mib"@.len() == 3 && "mib"@[0] == 'm' && "mib"@[1] == 'i' && "mib"@[2] == 'b',
        "gib"@.len() == 3 && "gib"@[0] == 'g' && "gib"@[1] == 'i' && "gib"@[2] == 'b',
        "day"@.len() == 3 && "day"@[0] == 'd' && "day"@[1] == 'a' && "day"@[2] == 'y',
        "hr"@.len() == 2 && "hr"@[0] == 'h' && "hr"@[1] == 'r',
        "min"@.len() == 3 && "min"@[0] == 'm' && "min"@[1] == 'i' && "min"@[2] == 'n',
        "s"@.len() == 1 && "s"@[0] == 's',
        "ms"@.len() == 2 && "ms"@[0] == 'm' && "ms"@[1] == 's',
        "us"@.len() == 2 && "us"@[0] == 'u' && "us"@[1] == 's',
        "ns"@.len() == 2 && "ns"@[0] == 'n' && "ns"@[1] == 's',
{
    reveal_strlit("b");
    reveal_strlit("kb");
    reveal_strlit("mb");
    reveal_strlit("gb");
    reveal_strlit("kib");
    reveal_strlit("mib");
    reveal_strlit("gib");
    reveal_strlit("day");
    reveal_strlit("hr");
    reveal_strlit("min");
    reveal_strlit("s");
    reveal_strlit("ms");
    reveal_strlit("us");
    reveal_strlit("ns");
}

/// Every unit suffix is a run of letters, and none names both a size and a
/// duration.
pub proof fn lemma_units_are_letters(r: Seq<char>)
    requires
        is_size_suffix(r) || is_duration_suffix(r),
    ensures
        is_letters(r),
        !(is_size_suffix(r) && is_duration_suffix(r)),
{
    lemma_units_spelled();
}

/// Classification by suffix. The text of a number with a run of letters
/// right behind it is one token. Where the letters are a size suffix it is
/// a `Size`, where they are a duration suffix a `Duration`, and it holds no
/// error. Any other run of letters leaves the number what it was, `Int` or
/// `Float`, and is an error that holds exactly those letters and spans
/// exactly them.
pub proof fn theorem_suffix_classification(number: Seq<char>, suffix: Seq<char>)
    requires
        number_kind(number) is Some,
        is_letters(suffix) || is_size_suffix(suffix) || is_duration_suffix(suffix),
        number.len() + suffix.len() <= u32::MAX,
    ensures
        ({
            let text = number + suffix;
            let whole = span_between(0, text.len() as int);
            let letters = span_between(number.len() as int, text.len() as int);
            if is_size_suffix(suffix) {
                &&& tokens_of(text) == seq![Token { kind: TokenKind::Size, span: whole }]
                &&& errors_of(text) == Seq::<LangErrorView>::empty()
            } else if is_duration_suffix(suffix) {
                &&& tokens_of(text) == seq![Token { kind: TokenKind::Duration, span: whole }]
                &&& errors_of(text) == Seq::<LangErrorView>::empty()
            } else {
                &&& tokens_of(text) == seq![Token { kind: number_kind(number)->0, span: whole }]
                &&& errors_of(text) == seq![
                    LangErrorView::UnknownNumericSuffix { suffix, span: letters },
                ]
            }
        }),
{
    reveal(lexeme_at);
    if is_size_suffix(suffix) || is_duration_suffix(suffix) {
        lemma_units_are_letters(suffix);
    }
    let text = number + suffix;
    let n = number.len() as int;
    let len = text.len() as int;
    assert(text.subrange(n, len) == suffix);
    assert forall|k: int| n <= k < len implies CharClass::Letters.contains(#[trigger] text[k]) by {
        assert(text[k] == suffix[k - n]);
    }
    lemma_run_end_is(text, n, len, CharClass::Letters);
    assert(text[n] == suffix[0]);
    assert(text[0] == number[0]);
    if is_integer_text(number) {
        assert forall|k: int| 1 <= k < n implies CharClass::Digits.contains(#[trigger] text[k]) by {
            assert(text[k] == number[k]);
        }
        lemma_run_end_is(text, 1, n, CharClass::Digits);
    } else {
        let dot = choose|dot: int| is_float_text(number, dot);
        let whole_part = number.subrange(0, dot);
        let fraction = number.subrange(dot + 1, n);
        assert(whole_part[0] == number[0]);
        assert forall|k: int| 1 <= k < dot implies CharClass::Digits.contains(
            #[trigger] text[k],
        ) by {
            assert(text[k] == whole_part[k]);
        }
        assert(text[dot] == number[dot]);
        lemma_run_end_is(text, 1, dot, CharClass::Digits);
        assert(text[dot + 1] == fraction[0]);
        assert forall|k: int| dot + 2 <= k < n implies CharClass::Digits.contains(
            #[trigger] text[k],
        ) by {
            assert(text[k] == fraction[k - dot - 1]);
        }
        lemma_run_end_is(text, dot + 2, n, CharClass::Digits);
    }
    let lexeme = lexeme_at(text, 0);
    assert(lexeme == with_suffix(text, number_kind(number)->0, n));
    assert(lexeme.end == len);
    assert(tokens_from(text, len) == Seq::<Token>::empty());
    assert(errors_from(text, len) == Seq::<LangErrorView>::empty());
    assert(tokens_of(text) == seq![Token { kind: lexeme.kind, span: span_between(0, len) }]
        + Seq::<Token>::empty());
    if lexeme.error is Some {
        assert(errors_of(text) == seq![lexeme.error->0] + Seq::<LangErrorView>::empty());
    }
}

} // verus!
