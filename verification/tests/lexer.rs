use selene_lang::error::LangError;
use selene_lang::lexer::{lex, Token, TokenKind};
use selene_lang::span::Span;

fn render(tokens: &[Token]) -> String {
    let mut actual = String::new();
    for Token { kind, span } in tokens {
        actual += &format!("{:?} {}\n", kind, span.to_string());
    }
    actual
}

fn without_blanks(tokens: Vec<Token>) -> Vec<Token> {
    tokens.into_iter().filter(|token| token.kind != TokenKind::Whitespace).collect()
}

fn token(kind: TokenKind, start: u32, end: u32) -> Token {
    Token { kind, span: Span { start, end } }
}

fn errors_of(source: &str) -> Vec<LangError> {
    let sink = lex(source).1;
    let mut errors = Vec::new();
    for index in 0..sink.len() {
        errors.push(sink.get(index).unwrap().clone());
    }
    errors
}

#[test]
fn simple() {
    let expected = "\
OpenParen 0..1
CloseParen 1..2
OpenBracket 2..3
CloseBracket 3..4
Colon 4..5
Equals 5..6
Comma 6..7
Pipe 7..8
Add 8..9
Sub 9..10
Mul 10..11
Div 11..12
Pow 12..13
Rem 13..14
Unknown 14..15
Or 15..17
Not 17..18
";
    let (tokens, errors) = lex("()[]:=,|+-*/^%&||!");
    assert_eq!(render(&tokens), expected);
    assert!(!errors.has_errors());
}

#[test]
fn keywords() {
    let source =
        "let fn if else for in while String Int Float Bool Size Duration Date Time DateTime";
    let expected = "\
LetKw 0..3
FnKw 4..6
IfKw 7..9
ElseKw 10..14
ForKw 15..18
InKw 19..21
WhileKw 22..27
StringTy 28..34
IntTy 35..38
FloatTy 39..44
BoolTy 45..49
SizeTy 50..54
DurationTy 55..63
DateTy 64..68
TimeTy 69..73
DateTimeTy 74..82
";
    let (tokens, errors) = lex(source);
    assert!(!errors.has_errors());
    assert_eq!(tokens.len(), 31);
    for (index, token) in tokens.iter().enumerate() {
        assert_eq!(token.kind == TokenKind::Whitespace, index % 2 == 1);
        if token.kind == TokenKind::Whitespace {
            assert_eq!(token.span.end - token.span.start, 1);
        }
    }
    assert_eq!(render(&without_blanks(tokens)), expected);
}

#[test]
fn idents() {
    let expected = "\
Ident 0..3
Ident 4..5
Ident 6..8
Ident 9..13
";
    let (tokens, errors) = lex("abc d le letf");
    assert!(!errors.has_errors());
    assert_eq!(
        tokens.iter().map(|token| token.kind).collect::<Vec<_>>(),
        vec![
            TokenKind::Ident,
            TokenKind::Whitespace,
            TokenKind::Ident,
            TokenKind::Whitespace,
            TokenKind::Ident,
            TokenKind::Whitespace,
            TokenKind::Ident,
        ]
    );
    assert_eq!(render(&without_blanks(tokens)), expected);
}

#[test]
fn size_literal() {
    let (tokens, errors) = lex("42kb");
    assert_eq!(tokens, vec![token(TokenKind::Size, 0, 4)]);
    assert!(!errors.has_errors());
    assert_eq!(errors.len(), 0);
}

#[test]
fn float_without_fractional() {
    let (tokens, errors) = lex("3.");
    assert_eq!(tokens, vec![token(TokenKind::Float, 0, 2)]);
    assert!(errors.has_errors());
    assert_eq!(errors.len(), 1);
    assert_eq!(
        errors.get(0),
        Some(&LangError::FloatWithoutFractional { span: Span { start: 0, end: 2 } })
    );
    assert_eq!(errors.get(1), None);
}

#[test]
fn unterminated_string() {
    let (tokens, errors) = lex("\"abc");
    assert_eq!(tokens, vec![token(TokenKind::String, 0, 4)]);
    assert_eq!(
        errors_of("\"abc"),
        vec![LangError::UnterminatedString { span: Span { start: 0, end: 1 } }]
    );
    assert!(errors.has_errors());
}

#[test]
fn unterminated_string_is_anchored_at_its_quote() {
    assert_eq!(
        errors_of("ab \"cd"),
        vec![LangError::UnterminatedString { span: Span { start: 3, end: 4 } }]
    );
    assert_eq!(
        lex("ab \"cd").0,
        vec![
            token(TokenKind::Ident, 0, 2),
            token(TokenKind::Whitespace, 2, 3),
            token(TokenKind::String, 3, 6),
        ]
    );
}

#[test]
fn empty_source() {
    let (tokens, errors) = lex("");
    assert!(tokens.is_empty());
    assert!(!errors.has_errors());
}

#[test]
fn newlines_are_single_tokens() {
    assert_eq!(
        lex("\n\n").0,
        vec![token(TokenKind::Newline, 0, 1), token(TokenKind::Newline, 1, 2)]
    );
    assert_eq!(
        lex(" \n\t").0,
        vec![
            token(TokenKind::Whitespace, 0, 1),
            token(TokenKind::Newline, 1, 2),
            token(TokenKind::Whitespace, 2, 3),
        ]
    );
}

#[test]
fn whitespace_runs_are_maximal() {
    assert_eq!(
        lex("a \t\r b").0,
        vec![
            token(TokenKind::Ident, 0, 1),
            token(TokenKind::Whitespace, 1, 5),
            token(TokenKind::Ident, 5, 6),
        ]
    );
}

#[test]
fn whitespace_beyond_ascii() {
    assert_eq!(
        lex("a\u{a0}\u{2003}b").0,
        vec![
            token(TokenKind::Ident, 0, 1),
            token(TokenKind::Whitespace, 1, 3),
            token(TokenKind::Ident, 3, 4),
        ]
    );
}

#[test]
fn comment_runs_to_end_of_line() {
    assert_eq!(
        lex("// hi there\nx").0,
        vec![
            token(TokenKind::Comment, 0, 11),
            token(TokenKind::Newline, 11, 12),
            token(TokenKind::Ident, 12, 13),
        ]
    );
    assert_eq!(lex("//").0, vec![token(TokenKind::Comment, 0, 2)]);
    assert_eq!(lex("///// x").0, vec![token(TokenKind::Comment, 0, 7)]);
}

#[test]
fn slash_alone_is_division() {
    assert_eq!(
        lex("a/b").0,
        vec![
            token(TokenKind::Ident, 0, 1),
            token(TokenKind::Div, 1, 2),
            token(TokenKind::Ident, 2, 3),
        ]
    );
    assert_eq!(lex("/").0, vec![token(TokenKind::Div, 0, 1)]);
}

#[test]
fn pipes_and_ampersands() {
    assert_eq!(lex("|").0, vec![token(TokenKind::Pipe, 0, 1)]);
    assert_eq!(lex("||").0, vec![token(TokenKind::Or, 0, 2)]);
    assert_eq!(
        lex("|||").0,
        vec![token(TokenKind::Or, 0, 2), token(TokenKind::Pipe, 2, 3)]
    );
    assert_eq!(lex("&&").0, vec![token(TokenKind::And, 0, 2)]);
    assert_eq!(lex("&").0, vec![token(TokenKind::Unknown, 0, 1)]);
    assert_eq!(
        lex("&&&").0,
        vec![token(TokenKind::And, 0, 2), token(TokenKind::Unknown, 2, 3)]
    );
    assert!(!lex("&").1.has_errors());
}

#[test]
fn unknown_characters() {
    assert_eq!(
        lex("#$\u{25b3}").0,
        vec![
            token(TokenKind::Unknown, 0, 1),
            token(TokenKind::Unknown, 1, 2),
            token(TokenKind::Unknown, 2, 3),
        ]
    );
    assert!(!lex("#$\u{25b3}").1.has_errors());
}

#[test]
fn booleans_are_literals() {
    assert_eq!(
        lex("true false truer").0,
        vec![
            token(TokenKind::Bool, 0, 4),
            token(TokenKind::Whitespace, 4, 5),
            token(TokenKind::Bool, 5, 10),
            token(TokenKind::Whitespace, 10, 11),
            token(TokenKind::Ident, 11, 16),
        ]
    );
}

#[test]
fn keywords_are_case_sensitive() {
    assert_eq!(
        without_blanks(lex("Let string INT datetime True").0)
            .iter()
            .map(|token| token.kind)
            .collect::<Vec<_>>(),
        vec![TokenKind::Ident; 5]
    );
}

#[test]
fn identifiers_beyond_ascii() {
    assert_eq!(lex("h\u{e9}llo_1").0, vec![token(TokenKind::Ident, 0, 7)]);
    assert_eq!(lex("_x").0, vec![token(TokenKind::Ident, 0, 2)]);
    assert_eq!(lex("_").0, vec![token(TokenKind::Ident, 0, 1)]);
    assert_eq!(lex("\u{4eac}\u{90fd}").0, vec![token(TokenKind::Ident, 0, 2)]);
    assert_eq!(
        lex("a\u{25b3}").0,
        vec![token(TokenKind::Ident, 0, 1), token(TokenKind::Unknown, 1, 2)]
    );
}

#[test]
fn strings_and_escapes() {
    assert_eq!(lex("\"abc\"").0, vec![token(TokenKind::String, 0, 5)]);
    assert!(!lex("\"abc\"").1.has_errors());
    assert_eq!(lex("\"\"").0, vec![token(TokenKind::String, 0, 2)]);
    // an escaped quote does not end the literal
    assert_eq!(lex("\"a\\\"b\"").0, vec![token(TokenKind::String, 0, 6)]);
    assert!(!lex("\"a\\\"b\"").1.has_errors());
    // an escaped backslash does not escape the quote behind it
    assert_eq!(
        lex("\"a\\\\\"b").0,
        vec![token(TokenKind::String, 0, 5), token(TokenKind::Ident, 5, 6)]
    );
    // a backslash before any other character stands for itself
    assert_eq!(lex("\"a\\nb\"").0, vec![token(TokenKind::String, 0, 6)]);
    // a string may hold line feeds
    assert_eq!(lex("\"a\nb\"").0, vec![token(TokenKind::String, 0, 5)]);
}

#[test]
fn unterminated_string_after_escape() {
    assert_eq!(lex("\"a\\\"").0, vec![token(TokenKind::String, 0, 4)]);
    assert_eq!(
        errors_of("\"a\\\""),
        vec![LangError::UnterminatedString { span: Span { start: 0, end: 1 } }]
    );
    assert_eq!(lex("\"\\").0, vec![token(TokenKind::String, 0, 2)]);
    assert_eq!(
        errors_of("\"\\"),
        vec![LangError::UnterminatedString { span: Span { start: 0, end: 1 } }]
    );
    assert_eq!(lex("\"").0, vec![token(TokenKind::String, 0, 1)]);
    assert_eq!(errors_of("\"").len(), 1);
}

#[test]
fn integers_and_floats() {
    assert_eq!(lex("0").0, vec![token(TokenKind::Int, 0, 1)]);
    assert_eq!(lex("1_000_000").0, vec![token(TokenKind::Int, 0, 9)]);
    assert_eq!(lex("3.14").0, vec![token(TokenKind::Float, 0, 4)]);
    assert_eq!(lex("3.1").0, vec![token(TokenKind::Float, 0, 3)]);
    assert_eq!(lex("3.1_4_").0, vec![token(TokenKind::Float, 0, 6)]);
    assert!(!lex("3.1").1.has_errors());
    assert_eq!(
        lex("1.5.2").0,
        vec![
            token(TokenKind::Float, 0, 3),
            token(TokenKind::Unknown, 3, 4),
            token(TokenKind::Int, 4, 5),
        ]
    );
    assert_eq!(
        lex("1-2").0,
        vec![
            token(TokenKind::Int, 0, 1),
            token(TokenKind::Sub, 1, 2),
            token(TokenKind::Int, 2, 3),
        ]
    );
}

#[test]
fn dot_without_digit_ends_the_number() {
    assert_eq!(
        lex("3.x").0,
        vec![token(TokenKind::Float, 0, 2), token(TokenKind::Ident, 2, 3)]
    );
    assert_eq!(
        errors_of("3.x"),
        vec![LangError::FloatWithoutFractional { span: Span { start: 0, end: 2 } }]
    );
    assert_eq!(
        lex("12._5").0,
        vec![token(TokenKind::Float, 0, 3), token(TokenKind::Ident, 3, 5)]
    );
    assert_eq!(
        errors_of("a 12. b"),
        vec![LangError::FloatWithoutFractional { span: Span { start: 2, end: 5 } }]
    );
}

#[test]
fn size_suffixes() {
    for suffix in ["b", "kb", "mb", "gb", "kib", "mib", "gib"] {
        let source = format!("10{suffix}");
        let (tokens, errors) = lex(&source);
        assert_eq!(tokens, vec![token(TokenKind::Size, 0, 2 + suffix.len() as u32)]);
        assert!(!errors.has_errors());
    }
    assert_eq!(lex("1.5gib").0, vec![token(TokenKind::Size, 0, 6)]);
}

#[test]
fn duration_suffixes() {
    for suffix in ["day", "hr", "min", "s", "ms", "us", "ns"] {
        let source = format!("10{suffix}");
        let (tokens, errors) = lex(&source);
        assert_eq!(tokens, vec![token(TokenKind::Duration, 0, 2 + suffix.len() as u32)]);
        assert!(!errors.has_errors());
    }
    assert_eq!(lex("0.5s").0, vec![token(TokenKind::Duration, 0, 4)]);
}

#[test]
fn unknown_suffixes() {
    assert_eq!(lex("10sec").0, vec![token(TokenKind::Int, 0, 5)]);
    assert_eq!(
        errors_of("10sec"),
        vec![LangError::UnknownNumericSuffix {
            suffix: "sec".to_string(),
            span: Span { start: 2, end: 5 },
        }]
    );
    assert_eq!(lex("2.5KB").0, vec![token(TokenKind::Float, 0, 5)]);
    assert_eq!(
        errors_of("2.5KB"),
        vec![LangError::UnknownNumericSuffix {
            suffix: "KB".to_string(),
            span: Span { start: 3, end: 5 },
        }]
    );
    // the suffix is the whole run of letters
    assert_eq!(lex("1kbs").0, vec![token(TokenKind::Int, 0, 4)]);
    assert_eq!(
        errors_of("1kbs"),
        vec![LangError::UnknownNumericSuffix {
            suffix: "kbs".to_string(),
            span: Span { start: 1, end: 4 },
        }]
    );
}

#[test]
fn suffix_beyond_ascii_is_counted_in_characters() {
    assert_eq!(
        lex("\u{e9} 5\u{e9}\u{e8}+").0,
        vec![
            token(TokenKind::Ident, 0, 1),
            token(TokenKind::Whitespace, 1, 2),
            token(TokenKind::Int, 2, 5),
            token(TokenKind::Add, 5, 6),
        ]
    );
    assert_eq!(
        errors_of("\u{e9} 5\u{e9}\u{e8}+"),
        vec![LangError::UnknownNumericSuffix {
            suffix: "\u{e9}\u{e8}".to_string(),
            span: Span { start: 3, end: 5 },
        }]
    );
}

#[test]
fn suffix_ends_at_digits() {
    assert_eq!(
        lex("1kb2").0,
        vec![token(TokenKind::Size, 0, 3), token(TokenKind::Int, 3, 4)]
    );
}

#[test]
fn errors_come_in_order_and_do_not_stop_the_scan() {
    let source = "1x 2. \"a";
    assert_eq!(
        errors_of(source),
        vec![
            LangError::UnknownNumericSuffix {
                suffix: "x".to_string(),
                span: Span { start: 1, end: 2 },
            },
            LangError::FloatWithoutFractional { span: Span { start: 3, end: 5 } },
            LangError::UnterminatedString { span: Span { start: 6, end: 7 } },
        ]
    );
    assert_eq!(
        lex(source).0,
        vec![
            token(TokenKind::Int, 0, 2),
            token(TokenKind::Whitespace, 2, 3),
            token(TokenKind::Float, 3, 5),
            token(TokenKind::Whitespace, 5, 6),
            token(TokenKind::String, 6, 8),
        ]
    );
}

fn assert_covered(source: &str) {
    let chars: Vec<char> = source.chars().collect();
    let tokens = lex(source).0;
    let mut place = 0u32;
    let mut text = String::new();
    for token in &tokens {
        assert_eq!(token.span.start, place);
        assert!(token.span.start < token.span.end);
        text.extend(&chars[token.span.start as usize..token.span.end as usize]);
        place = token.span.end;
    }
    assert_eq!(place as usize, chars.len());
    assert_eq!(text, source);
}

#[test]
fn tokens_cover_the_text() {
    assert_covered("");
    assert_covered("let x = 42kb // size\n\tif x || !y && z { \"s\\\"\" } 3. 1sec \u{e9}t\u{e9} \"open");
    assert_covered("()[]:=,|+-*/^%&||!");
    assert_covered("\u{a0}\u{25b3}5\u{e9}");
}

fn assert_alone(source: &str) {
    let chars: Vec<char> = source.chars().collect();
    for token in lex(source).0 {
        let piece: String =
            chars[token.span.start as usize..token.span.end as usize].iter().collect();
        let alone = lex(&piece).0;
        assert_eq!(alone.len(), 1);
        assert_eq!(alone[0].kind, token.kind);
        assert_eq!(alone[0].span, Span { start: 0, end: token.span.end - token.span.start });
    }
}

#[test]
fn tokens_alone_keep_their_kind() {
    assert_alone("let x = 42kb // size\n\tif x || !y && z | w & \"s\\\"\" 3. 1sec 2.5 \"open");
    assert_alone("()[]:=,|+-*/^%&||!");
    assert_alone("a \t b\n// c");
}

#[test]
fn reserved_words_alone() {
    let table = [
        ("let", TokenKind::LetKw),
        ("fn", TokenKind::FnKw),
        ("if", TokenKind::IfKw),
        ("else", TokenKind::ElseKw),
        ("for", TokenKind::ForKw),
        ("in", TokenKind::InKw),
        ("while", TokenKind::WhileKw),
        ("String", TokenKind::StringTy),
        ("Int", TokenKind::IntTy),
        ("Float", TokenKind::FloatTy),
        ("Bool", TokenKind::BoolTy),
        ("Size", TokenKind::SizeTy),
        ("Duration", TokenKind::DurationTy),
        ("Date", TokenKind::DateTy),
        ("Time", TokenKind::TimeTy),
        ("DateTime", TokenKind::DateTimeTy),
    ];
    for (word, kind) in table {
        assert_eq!(lex(word).0, vec![token(kind, 0, word.len() as u32)]);
        let longer = format!("{word}x");
        assert_eq!(lex(&longer).0, vec![token(TokenKind::Ident, 0, longer.len() as u32)]);
    }
}
