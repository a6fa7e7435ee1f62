use jsx_lexer::{Lexer, Token, TokenKind};

fn lex_all(input: &str) -> Vec<Token> {
    let mut lexer = Lexer::new(input.to_string());
    let mut out = Vec::new();
    loop {
        let token = lexer.next_token();
        let done = token.kind == TokenKind::Eof;
        out.push(token);
        if done {
            return out;
        }
    }
}

fn kinds(tokens: &[Token]) -> Vec<TokenKind> {
    tokens.iter().map(|t| t.kind.clone()).collect()
}

#[test]
fn test_string_escape_sequences() {
    let input = r#""Hello\nWorld""#.to_string();
    let mut lexer = Lexer::new(input);
    let token = lexer.next_token();

    if let TokenKind::String(s) = token.kind {
        assert_eq!(s, "Hello\nWorld");
    } else {
        panic!("Expected String token, got {:?}", token.kind);
    }
}

#[test]
fn test_string_tab_escape() {
    let input = r#""Tab\there""#.to_string();
    let mut lexer = Lexer::new(input);
    let token = lexer.next_token();

    if let TokenKind::String(s) = token.kind {
        assert_eq!(s, "Tab\there");
    } else {
        panic!("Expected String token, got {:?}", token.kind);
    }
}

#[test]
fn test_string_quote_escape() {
    let input = r#""Say \"Hello\"""#.to_string();
    let mut lexer = Lexer::new(input);
    let token = lexer.next_token();

    if let TokenKind::String(s) = token.kind {
        assert_eq!(s, "Say \"Hello\"");
    } else {
        panic!("Expected String token, got {:?}", token.kind);
    }
}

#[test]
fn test_string_backslash_escape() {
    let input = r#""Path\\to\\file""#.to_string();
    let mut lexer = Lexer::new(input);
    let token = lexer.next_token();

    if let TokenKind::String(s) = token.kind {
        assert_eq!(s, "Path\\to\\file");
    } else {
        panic!("Expected String token, got {:?}", token.kind);
    }
}

#[test]
fn test_string_multiple_escapes() {
    let input = r#""Line1\nLine2\tTabbed\\Backslash""#.to_string();
    let mut lexer = Lexer::new(input);
    let token = lexer.next_token();

    if let TokenKind::String(s) = token.kind {
        assert_eq!(s, "Line1\nLine2\tTabbed\\Backslash");
    } else {
        panic!("Expected String token, got {:?}", token.kind);
    }
}

#[test]
fn test_multiline_string() {
    let input = "\"Line 1\nLine 2\nLine 3\"".to_string();
    let mut lexer = Lexer::new(input);
    let token = lexer.next_token();

    if let TokenKind::String(s) = token.kind {
        assert_eq!(s, "Line 1\nLine 2\nLine 3");
    } else {
        panic!("Expected String token, got {:?}", token.kind);
    }
}

#[test]
fn test_multiline_string_with_indentation() {
    let input = "\"  Indented line 1\n    Indented line 2\n  End\"".to_string();
    let mut lexer = Lexer::new(input);
    let token = lexer.next_token();

    if let TokenKind::String(s) = token.kind {
        assert_eq!(s, "  Indented line 1\n    Indented line 2\n  End");
    } else {
        panic!("Expected String token, got {:?}", token.kind);
    }
}

#[test]
fn test_jsx_simple_text() {
    let input = "Hello World".to_string();
    let mut lexer = Lexer::new(input);

    lexer.enter_jsx_mode();

    let token = lexer.next_token();
    assert_eq!(token.kind, TokenKind::JsxText("Hello World".to_string()));
}

#[test]
fn test_jsx_text_with_whitespace() {
    let input = "  Hello World  ".to_string();
    let mut lexer = Lexer::new(input);

    lexer.enter_jsx_mode();

    let token = lexer.next_token();
    assert_eq!(token.kind, TokenKind::JsxText("Hello World".to_string()));
}

#[test]
fn test_jsx_mode_entry_exit() {
    let mut lexer = Lexer::new("test".to_string());

    assert!(!lexer.is_jsx_mode());

    lexer.enter_jsx_mode();
    assert!(lexer.is_jsx_mode());

    lexer.exit_jsx_mode();
    assert!(!lexer.is_jsx_mode());
}

#[test]
fn test_jsx_nested_mode() {
    let mut lexer = Lexer::new("test".to_string());

    lexer.enter_jsx_mode();
    lexer.enter_jsx_mode();
    assert!(lexer.is_jsx_mode());

    lexer.exit_jsx_mode();
    assert!(lexer.is_jsx_mode());

    lexer.exit_jsx_mode();
    assert!(!lexer.is_jsx_mode());
}

#[test]
fn test_jsx_slash_gt_in_code_mode() {
    let input = "/>".to_string();
    let mut lexer = Lexer::new(input);

    let token = lexer.next_token();
    assert_eq!(token.kind, TokenKind::Slash);

    let token2 = lexer.next_token();
    assert_eq!(token2.kind, TokenKind::RAngle);
}

#[test]
fn test_jsx_expression_braces() {
    let input = "{ name }".to_string();
    let mut lexer = Lexer::new(input);

    lexer.enter_jsx_mode();

    let token1 = lexer.next_token();
    assert_eq!(token1.kind, TokenKind::JsxOpenBrace);

    let token2 = lexer.next_token();
    assert_eq!(token2.kind, TokenKind::Identifier);
    assert_eq!(token2.lexeme, "name");

    let token3 = lexer.next_token();
    assert_eq!(token3.kind, TokenKind::JsxCloseBrace);
}

#[test]
fn test_jsx_text_stops_at_tag() {
    let input = "Hello<div".to_string();
    let mut lexer = Lexer::new(input);

    lexer.enter_jsx_mode();

    let token1 = lexer.next_token();
    assert_eq!(token1.kind, TokenKind::JsxText("Hello".to_string()));

    let token2 = lexer.next_token();
    assert_eq!(token2.kind, TokenKind::LAngle);
}

#[test]
fn test_jsx_text_stops_at_expression() {
    let input = "Hello{name".to_string();
    let mut lexer = Lexer::new(input);

    lexer.enter_jsx_mode();

    let token1 = lexer.next_token();
    assert_eq!(token1.kind, TokenKind::JsxText("Hello".to_string()));

    let token2 = lexer.next_token();
    assert_eq!(token2.kind, TokenKind::JsxOpenBrace);
}

#[test]
fn test_jsx_angle_brackets_in_code_mode() {
    let input = "a < b".to_string();
    let mut lexer = Lexer::new(input);

    let token1 = lexer.next_token();
    assert_eq!(token1.kind, TokenKind::Identifier);

    let token2 = lexer.next_token();
    assert_eq!(token2.kind, TokenKind::LAngle);

    let token3 = lexer.next_token();
    assert_eq!(token3.kind, TokenKind::Identifier);
}

#[test]
fn test_jsx_braces_in_code_mode() {
    let input = "{ let x = 1; }".to_string();
    let mut lexer = Lexer::new(input);

    let token1 = lexer.next_token();
    assert_eq!(token1.kind, TokenKind::LBrace);

    lexer.next_token(); // let
    lexer.next_token(); // x
    lexer.next_token(); // =
    lexer.next_token(); // 1
    lexer.next_token(); // ;

    let token_close = lexer.next_token();
    assert_eq!(token_close.kind, TokenKind::RBrace);
}

#[test]
fn test_jsx_nested_expressions() {
    let input = "{ { nested } }".to_string();
    let mut lexer = Lexer::new(input);

    lexer.enter_jsx_mode();

    let token1 = lexer.next_token();
    assert_eq!(token1.kind, TokenKind::JsxOpenBrace);

    let token2 = lexer.next_token();
    assert_eq!(token2.kind, TokenKind::LBrace);

    let token3 = lexer.next_token();
    assert_eq!(token3.kind, TokenKind::Identifier);

    let token4 = lexer.next_token();
    assert_eq!(token4.kind, TokenKind::RBrace);

    let token5 = lexer.next_token();
    assert_eq!(token5.kind, TokenKind::JsxCloseBrace);
}

#[test]
fn test_jsx_closing_tag_detected() {
    let input = "</div>".to_string();
    let mut lexer = Lexer::new(input);

    lexer.enter_jsx_mode();

    let token1 = lexer.next_token();
    assert_eq!(token1.kind, TokenKind::LAngle);

    lexer.exit_jsx_mode();

    let token2 = lexer.next_token();
    assert_eq!(token2.kind, TokenKind::Slash);

    let token3 = lexer.next_token();
    assert_eq!(token3.kind, TokenKind::Identifier);

    let token4 = lexer.next_token();
    assert_eq!(token4.kind, TokenKind::RAngle);
}

#[test]
fn test_jsx_multiline_text() {
    let input = "Line 1\nLine 2\nLine 3".to_string();
    let mut lexer = Lexer::new(input);

    lexer.enter_jsx_mode();

    let token = lexer.next_token();
    assert_eq!(token.kind, TokenKind::JsxText("Line 1\nLine 2\nLine 3".to_string()));
}

#[test]
fn test_css_macro_recognition() {
    let input = "css!".to_string();
    let mut lexer = Lexer::new(input);

    let token = lexer.next_token();
    assert_eq!(token.kind, TokenKind::CssMacro);
    assert_eq!(token.lexeme, "css!");
}

#[test]
fn test_css_basic_rule() {
    let input = r#"css! {
            .button {
                background: blue;
                padding: 12px;
            }
        }"#
    .to_string();

    let mut lexer = Lexer::new(input);

    let token1 = lexer.next_token();
    assert_eq!(token1.kind, TokenKind::CssMacro);

    let token2 = lexer.next_token();
    assert_eq!(token2.kind, TokenKind::LBrace);

    lexer.enter_css_mode();

    let token3 = lexer.next_token();
    assert!(matches!(token3.kind, TokenKind::CssSelector(_)));

    let token4 = lexer.next_token();
    assert_eq!(token4.kind, TokenKind::LBrace);

    let token5 = lexer.next_token();
    assert!(matches!(token5.kind, TokenKind::CssProperty(_)));

    let token6 = lexer.next_token();
    assert_eq!(token6.kind, TokenKind::Colon);

    let token7 = lexer.next_token();
    assert!(matches!(token7.kind, TokenKind::CssValue(_)));

    let token8 = lexer.next_token();
    assert_eq!(token8.kind, TokenKind::Semicolon);
}

// Properties and edge cases

#[test]
fn end_of_input_repeats() {
    let mut lexer = Lexer::new("x".to_string());
    assert_eq!(lexer.next_token().kind, TokenKind::Identifier);
    let first = lexer.next_token();
    assert_eq!(first.kind, TokenKind::Eof);
    assert_eq!(first.lexeme, "");
    for _ in 0..5 {
        assert_eq!(lexer.next_token(), first);
    }
}

#[test]
fn end_of_input_repeats_in_both_modes() {
    let mut lexer = Lexer::new(String::new());
    lexer.enter_jsx_mode();
    assert_eq!(lexer.next_token().kind, TokenKind::Eof);
    assert_eq!(lexer.next_token().kind, TokenKind::Eof);
    lexer.exit_jsx_mode();
    lexer.enter_css_mode();
    assert_eq!(lexer.next_token().kind, TokenKind::Eof);
    assert_eq!(lexer.next_token().kind, TokenKind::Eof);
    assert!(lexer.is_css_mode());
}

#[test]
fn brace_depth_never_goes_negative() {
    let mut lexer = Lexer::new("}{".to_string());
    lexer.decrement_brace_depth();
    lexer.decrement_brace_depth();
    lexer.enter_jsx_mode();
    // Depth stayed at 0, so this `}` is an ordinary brace and the next `{`
    // opens an expression hole at baseline 0.
    assert_eq!(lexer.next_token().kind, TokenKind::RBrace);
    assert_eq!(lexer.next_token().kind, TokenKind::JsxOpenBrace);
}

#[test]
fn baselines_follow_nesting() {
    // The outer element is entered at depth 0, a nested one inside a hole at
    // depth 1: its text is read at depth 1, and after it exits the next brace
    // closes the outer hole.
    let mut lexer = Lexer::new("{text}".to_string());
    lexer.enter_jsx_mode();
    assert_eq!(lexer.next_token().kind, TokenKind::JsxOpenBrace);
    lexer.enter_nested_jsx();
    assert_eq!(lexer.next_token().kind, TokenKind::JsxText("text".to_string()));
    lexer.exit_jsx_mode();
    assert!(lexer.is_jsx_mode());
    assert_eq!(lexer.next_token().kind, TokenKind::JsxCloseBrace);
}

#[test]
fn style_mode_ends_when_its_depth_returns_to_zero() {
    let mut lexer = Lexer::new("a { b: c; } } x".to_string());
    lexer.enter_css_mode();
    assert!(lexer.is_css_mode());
    let tokens: Vec<TokenKind> = (0..7).map(|_| lexer.next_token().kind).collect();
    assert_eq!(
        tokens,
        vec![
            TokenKind::CssSelector("a".to_string()),
            TokenKind::LBrace,
            TokenKind::CssProperty("b".to_string()),
            TokenKind::Colon,
            TokenKind::CssValue("c".to_string()),
            TokenKind::Semicolon,
            TokenKind::RBrace,
        ]
    );
    assert!(lexer.is_css_mode());
    assert_eq!(lexer.next_token().kind, TokenKind::RBrace);
    assert!(!lexer.is_css_mode());
    assert_eq!(lexer.next_token().kind, TokenKind::Identifier);
}

#[test]
fn markup_mode_stays_on_while_lexing() {
    let mut lexer = Lexer::new("Hi {a} </ b > c".to_string());
    lexer.enter_jsx_mode();
    for _ in 0..10 {
        lexer.next_token();
        assert!(lexer.is_jsx_mode());
    }
}

#[test]
fn comparison_outside_markup() {
    let tokens = lex_all("a < b");
    assert_eq!(
        kinds(&tokens),
        vec![TokenKind::Identifier, TokenKind::LAngle, TokenKind::Identifier, TokenKind::Eof]
    );
    assert_eq!(tokens[0].lexeme, "a");
    assert_eq!(tokens[2].lexeme, "b");
}

#[test]
fn markup_text_then_hole() {
    let mut lexer = Lexer::new("Hello{name".to_string());
    lexer.enter_jsx_mode();
    assert_eq!(lexer.next_token().kind, TokenKind::JsxText("Hello".to_string()));
    assert_eq!(lexer.next_token().kind, TokenKind::JsxOpenBrace);
    let name = lexer.next_token();
    assert_eq!(name.kind, TokenKind::Identifier);
    assert_eq!(name.lexeme, "name");
    assert_eq!(lexer.next_token().kind, TokenKind::Eof);
}

#[test]
fn nested_braces_in_hole_with_lexemes() {
    let mut lexer = Lexer::new("{ { nested } }".to_string());
    lexer.enter_jsx_mode();
    let tokens: Vec<Token> = (0..6).map(|_| lexer.next_token()).collect();
    assert_eq!(
        kinds(&tokens),
        vec![
            TokenKind::JsxOpenBrace,
            TokenKind::LBrace,
            TokenKind::Identifier,
            TokenKind::RBrace,
            TokenKind::JsxCloseBrace,
            TokenKind::Eof,
        ]
    );
    assert_eq!(tokens[2].lexeme, "nested");
}

#[test]
fn compact_style_rule() {
    let mut lexer = Lexer::new(".button{background:blue;padding:12px;}".to_string());
    lexer.enter_css_mode();
    let tokens: Vec<TokenKind> = (0..11).map(|_| lexer.next_token().kind).collect();
    assert_eq!(
        tokens,
        vec![
            TokenKind::CssSelector(".button".to_string()),
            TokenKind::LBrace,
            TokenKind::CssProperty("background".to_string()),
            TokenKind::Colon,
            TokenKind::CssValue("blue".to_string()),
            TokenKind::Semicolon,
            TokenKind::CssProperty("padding".to_string()),
            TokenKind::Colon,
            TokenKind::CssValue("12px".to_string()),
            TokenKind::Semicolon,
            TokenKind::RBrace,
        ]
    );
    assert!(lexer.is_css_mode());
}

#[test]
fn lifetime_and_bare_quote() {
    let tokens = lex_all("'static");
    assert_eq!(tokens[0].kind, TokenKind::Lifetime("static".to_string()));
    assert_eq!(tokens[0].lexeme, "'static");

    let tokens = lex_all("' x");
    assert_eq!(tokens[0].kind, TokenKind::Illegal('\''));
    assert_eq!(tokens[0].lexeme, "'");
    assert_eq!(tokens[1].kind, TokenKind::Identifier);
}

#[test]
fn markup_text_is_trimmed_inside_only() {
    let mut lexer = Lexer::new(" \t a  b \n c \n<".to_string());
    lexer.enter_jsx_mode();
    let token = lexer.next_token();
    assert_eq!(token.kind, TokenKind::JsxText("a  b \n c".to_string()));
    assert_eq!(token.lexeme, "a  b \n c");
    assert_eq!(lexer.next_token().kind, TokenKind::LAngle);
}

#[test]
fn unicode_white_space_is_trimmed() {
    let mut lexer = Lexer::new("\u{a0}x y\u{2003}".to_string());
    lexer.enter_jsx_mode();
    assert_eq!(lexer.next_token().kind, TokenKind::JsxText("x y".to_string()));
}

#[test]
fn no_text_for_white_space_before_a_boundary() {
    let mut lexer = Lexer::new("   )".to_string());
    lexer.enter_jsx_mode();
    assert_eq!(lexer.next_token().kind, TokenKind::RParen);
}

#[test]
fn delimiter_after_closed_hole_is_text() {
    let mut lexer = Lexer::new("{x}) more".to_string());
    lexer.enter_jsx_mode();
    assert_eq!(lexer.next_token().kind, TokenKind::JsxOpenBrace);
    assert_eq!(lexer.next_token().kind, TokenKind::Identifier);
    assert_eq!(lexer.next_token().kind, TokenKind::JsxCloseBrace);
    assert_eq!(lexer.next_token().kind, TokenKind::JsxText(") more".to_string()));
}

#[test]
fn closing_tag_mode_suppresses_text() {
    let mut lexer = Lexer::new("div".to_string());
    lexer.enter_jsx_mode();
    lexer.enter_closing_tag_mode();
    assert_eq!(lexer.next_token().kind, TokenKind::Identifier);
    lexer.exit_closing_tag_mode();
}

#[test]
fn tag_attributes_are_not_text() {
    let mut lexer = Lexer::new("<a b={x > 1}>hi".to_string());
    lexer.enter_jsx_mode();
    let tokens: Vec<TokenKind> = (0..11).map(|_| lexer.next_token().kind).collect();
    assert_eq!(
        tokens,
        vec![
            TokenKind::LAngle,
            TokenKind::Identifier,
            TokenKind::Identifier,
            TokenKind::Assign,
            TokenKind::JsxOpenBrace,
            TokenKind::Identifier,
            TokenKind::RAngle,
            TokenKind::Integer(1),
            TokenKind::JsxCloseBrace,
            TokenKind::RAngle,
            TokenKind::JsxText("hi".to_string()),
        ]
    );
}

#[test]
fn self_close_in_markup() {
    let mut lexer = Lexer::new("/>".to_string());
    lexer.enter_jsx_mode();
    lexer.increment_brace_depth();
    let token = lexer.next_token();
    assert_eq!(token.kind, TokenKind::JsxSelfClose);
    assert_eq!(token.lexeme, "/>");
}

#[test]
fn unknown_escape_is_kept() {
    let tokens = lex_all(r#""a\qb""#);
    assert_eq!(tokens[0].kind, TokenKind::String("a\\qb".to_string()));
}

#[test]
fn other_escapes() {
    let tokens = lex_all(r#""\r\'\0""#);
    assert_eq!(tokens[0].kind, TokenKind::String("\r'\0".to_string()));
}

#[test]
fn unterminated_string_keeps_what_was_read() {
    let tokens = lex_all("\"abc");
    assert_eq!(tokens[0].kind, TokenKind::String("abc".to_string()));
    assert_eq!(tokens[1].kind, TokenKind::Eof);
}

#[test]
fn integer_overflow_becomes_zero() {
    let tokens = lex_all("9223372036854775807 9223372036854775808");
    assert_eq!(tokens[0].kind, TokenKind::Integer(i64::MAX));
    assert_eq!(tokens[1].kind, TokenKind::Integer(0));
    assert_eq!(tokens[1].lexeme, "9223372036854775808");
}

#[test]
fn float_keeps_its_text() {
    let tokens = lex_all("3.14 1..2");
    assert_eq!(tokens[0].kind, TokenKind::Float("3.14".to_string()));
    assert_eq!(
        kinds(&tokens[1..]),
        vec![TokenKind::Integer(1), TokenKind::DotDot, TokenKind::Integer(2), TokenKind::Eof]
    );
}

#[test]
fn operators_with_lookahead() {
    let tokens = lex_all(":: : => == = && & || | != ! -> - <= < >= > .. ..= ... . + * % ? ( ) [ ] , ; @");
    assert_eq!(
        kinds(&tokens),
        vec![
            TokenKind::DoubleColon,
            TokenKind::Colon,
            TokenKind::FatArrow,
            TokenKind::Eq,
            TokenKind::Assign,
            TokenKind::AmpAmp,
            TokenKind::Ampersand,
            TokenKind::PipePipe,
            TokenKind::Pipe,
            TokenKind::NotEq,
            TokenKind::Bang,
            TokenKind::Arrow,
            TokenKind::Minus,
            TokenKind::LtEq,
            TokenKind::LAngle,
            TokenKind::GtEq,
            TokenKind::RAngle,
            TokenKind::DotDot,
            TokenKind::DotDotEq,
            TokenKind::DotDotDot,
            TokenKind::Dot,
            TokenKind::Plus,
            TokenKind::Star,
            TokenKind::Percent,
            TokenKind::Question,
            TokenKind::LParen,
            TokenKind::RParen,
            TokenKind::LBracket,
            TokenKind::RBracket,
            TokenKind::Comma,
            TokenKind::Semicolon,
            TokenKind::At,
            TokenKind::Eof,
        ]
    );
    assert_eq!(tokens[0].lexeme, "::");
    assert_eq!(tokens[19].lexeme, "...");
}

#[test]
fn keywords_booleans_and_identifiers() {
    let tokens = lex_all("let fn component server true false mut x1 _y");
    assert_eq!(
        kinds(&tokens),
        vec![
            TokenKind::Let,
            TokenKind::Fn,
            TokenKind::Component,
            TokenKind::Server,
            TokenKind::Bool(true),
            TokenKind::Bool(false),
            TokenKind::Mut,
            TokenKind::Identifier,
            TokenKind::Identifier,
            TokenKind::Eof,
        ]
    );
    assert_eq!(tokens[7].lexeme, "x1");
}

#[test]
fn comments_are_skipped() {
    let tokens = lex_all("a // note\n/* block\n */ b /* open");
    assert_eq!(
        kinds(&tokens),
        vec![TokenKind::Identifier, TokenKind::Identifier, TokenKind::Eof]
    );
    assert_eq!(tokens[1].lexeme, "b");
}

#[test]
fn illegal_character_is_reported() {
    let tokens = lex_all("a $ b");
    assert_eq!(tokens[1].kind, TokenKind::Illegal('$'));
    assert_eq!(tokens[1].lexeme, "$");
    assert_eq!(tokens[2].kind, TokenKind::Identifier);
}

#[test]
fn line_and_column() {
    let tokens = lex_all("let x");
    assert_eq!((tokens[0].line, tokens[0].column), (1, 1));
    assert_eq!((tokens[1].line, tokens[1].column), (1, 5));
}

#[test]
fn non_ascii_identifier() {
    let tokens = lex_all("caf\u{e9} x");
    assert_eq!(tokens[0].kind, TokenKind::Identifier);
    assert_eq!(tokens[0].lexeme, "caf\u{e9}");
}

#[test]
fn at_rules_in_style_mode() {
    let mut lexer = Lexer::new("@media (min-width: 10px) { } @keyframes @foo bar;".to_string());
    lexer.enter_css_mode();
    let tokens: Vec<Token> = (0..12).map(|_| lexer.next_token()).collect();
    assert_eq!(
        kinds(&tokens),
        vec![
            TokenKind::CssMedia,
            TokenKind::LParen,
            TokenKind::CssProperty("min-width".to_string()),
            TokenKind::Colon,
            TokenKind::Integer(10),
            TokenKind::CssProperty("px".to_string()),
            TokenKind::RParen,
            TokenKind::LBrace,
            TokenKind::RBrace,
            TokenKind::CssKeyframes,
            TokenKind::At,
            TokenKind::CssValue("foo bar".to_string()),
        ]
    );
    assert_eq!(tokens[0].lexeme, "@media");
    assert_eq!(tokens[10].lexeme, "@");
}

#[test]
fn style_values_and_units() {
    let mut lexer = Lexer::new("w: 50%; h: 1.5em; c: \"x\"; #id .a b {".to_string());
    lexer.enter_css_mode();
    let tokens: Vec<TokenKind> = (0..13).map(|_| lexer.next_token().kind).collect();
    assert_eq!(
        tokens,
        vec![
            TokenKind::CssProperty("w".to_string()),
            TokenKind::Colon,
            TokenKind::CssValue("50%".to_string()),
            TokenKind::Semicolon,
            TokenKind::CssProperty("h".to_string()),
            TokenKind::Colon,
            TokenKind::CssValue("1.5em".to_string()),
            TokenKind::Semicolon,
            TokenKind::CssProperty("c".to_string()),
            TokenKind::Colon,
            TokenKind::String("x".to_string()),
            TokenKind::Semicolon,
            TokenKind::CssSelector("#id .a b".to_string()),
        ]
    );
}

#[test]
fn exit_css_mode_resets() {
    let mut lexer = Lexer::new("a {".to_string());
    lexer.enter_css_mode();
    lexer.exit_css_mode();
    assert!(!lexer.is_css_mode());
    assert_eq!(lexer.next_token().kind, TokenKind::Identifier);
}

#[test]
fn token_new_keeps_fields() {
    let t = Token::new(TokenKind::Plus, "+".to_string(), 3, 7);
    assert_eq!(t.kind, TokenKind::Plus);
    assert_eq!(t.lexeme, "+");
    assert_eq!(t.line, 3);
    assert_eq!(t.column, 7);
}

#[test]
fn embedded_nul_is_an_illegal_character() {
    let tokens = lex_all("\0;");
    assert_eq!(
        kinds(&tokens),
        vec![TokenKind::Illegal('\0'), TokenKind::Semicolon, TokenKind::Eof]
    );
}

#[test]
fn embedded_nul_in_style_mode() {
    let mut lexer = Lexer::new("\0; x".to_string());
    lexer.enter_css_mode();
    assert_eq!(lexer.next_token().kind, TokenKind::Illegal('\0'));
    assert_eq!(lexer.next_token().kind, TokenKind::Semicolon);
    assert_eq!(lexer.next_token().kind, TokenKind::CssValue("x".to_string()));
    assert_eq!(lexer.next_token().kind, TokenKind::Eof);
}

#[test]
fn embedded_nul_inside_text() {
    let tokens = lex_all("\"a\0b\"");
    assert_eq!(tokens[0].kind, TokenKind::String("a\0b".to_string()));
    assert_eq!(tokens[1].kind, TokenKind::Eof);

    let mut lexer = Lexer::new("x\0y<".to_string());
    lexer.enter_jsx_mode();
    assert_eq!(lexer.next_token().kind, TokenKind::JsxText("x\0y".to_string()));
    assert_eq!(lexer.next_token().kind, TokenKind::LAngle);

    let mut lexer = Lexer::new(".a\0b {c: d\0e;".to_string());
    lexer.enter_css_mode();
    let tokens: Vec<TokenKind> = (0..6).map(|_| lexer.next_token().kind).collect();
    assert_eq!(
        tokens,
        vec![
            TokenKind::CssSelector(".a\0b".to_string()),
            TokenKind::LBrace,
            TokenKind::CssProperty("c".to_string()),
            TokenKind::Colon,
            TokenKind::CssValue("d\0e".to_string()),
            TokenKind::Semicolon,
        ]
    );
}

#[test]
fn trailing_backslash_is_kept() {
    let tokens = lex_all("\"ab\\");
    assert_eq!(tokens[0].kind, TokenKind::String("ab\\".to_string()));
    assert_eq!(tokens[1].kind, TokenKind::Eof);
}

#[test]
fn comments_end_at_a_nul_only_if_it_is_the_end() {
    let tokens = lex_all("// a\0b\nx /* \0 */ y");
    assert_eq!(
        kinds(&tokens),
        vec![TokenKind::Identifier, TokenKind::Identifier, TokenKind::Eof]
    );
}
