//! What the lexer does, stated over values: `lex` maps a lexer state to the
//! next state and the token it returns.
use vstd::prelude::*;

use crate::cursor::{char_at, run_end, CursorView};
use crate::text::{alphabetic, ascii_digit, trim_end, trimmed, whitespace, CharClass};
use crate::token::{word_kind, KindModel, TokenKind, TokenModel};

verus! {

/// The abstract state of a lexer.
pub struct LexState {
    pub cursor: CursorView,
    /// Markup mode is active.
    pub jsx_mode: bool,
    /// How many markup elements are open.
    pub jsx_depth: nat,
    /// The brace depth shared by the host tokenizer and markup mode.
    pub brace_depth: nat,
    /// Between a tag's `<` and its `>`.
    pub jsx_in_tag: bool,
    /// The parser is reading a closing tag.
    pub in_closing_tag: bool,
    /// For each open markup element, the brace depth when it was entered.
    pub baselines: Seq<usize>,
    /// The previous token closed an expression hole.
    pub just_closed: bool,
    /// Style mode is active.
    pub css_mode: bool,
    /// Brace depth inside a style block.
    pub css_depth: nat,
    /// Parenthesis depth inside a style block.
    pub css_paren_depth: nat,
    /// Between `@media` and the `{` of its body.
    pub in_media_query: bool,
}

impl LexState {
    /// The invariants that every lexer state keeps.
    pub open spec fn well_formed(self) -> bool {
        &&& self.cursor.wf()
        &&& self.baselines.len() == self.jsx_depth
        &&& self.jsx_mode ==> self.jsx_depth > 0
        &&& self.css_mode <==> self.css_depth > 0
        &&& self.css_depth <= self.cursor.pos + 1
        &&& self.css_paren_depth <= self.cursor.pos
    }

    /// The brace depth recorded for the innermost open markup element, or 0.
    pub open spec fn baseline(self) -> nat {
        if self.baselines.len() > 0 {
            self.baselines.last() as nat
        } else {
            0
        }
    }

    /// The state with the cursor at `c`.
    pub open spec fn at(self, c: CursorView) -> LexState {
        LexState { cursor: c, ..self }
    }
}

/// A token of a kind without text.
pub open spec fn token(kind: TokenKind, lexeme: Seq<char>, line: int, column: int) -> TokenModel {
    TokenModel { kind: KindModel::Plain(kind), lexeme, line, column }
}

/// A one-character token reported at the current line, then one step on.
pub open spec fn emit_before(s: LexState, kind: TokenKind, lexeme: Seq<char>) -> (LexState, TokenModel) {
    (s.at(s.cursor.step()), token(kind, lexeme, s.cursor.line, s.cursor.column))
}

/// An `n`-character token reported at the line reached after it.
pub open spec fn emit_after(s: LexState, n: int, kind: TokenKind, lexeme: Seq<char>) -> (
    LexState,
    TokenModel,
) {
    let c = s.cursor.advance_to(s.cursor.pos + n);
    (s.at(c), token(kind, lexeme, c.line, s.cursor.column))
}

/// Where comment and white-space skipping stands.
pub enum Trivia {
    Code,
    LineComment,
    BlockComment,
}

pub open spec fn trivia_rank(t: Trivia) -> int {
    match t {
        Trivia::Code => 0,
        _ => 1,
    }
}

/// The index reached by skipping white space, `//` line comments and
/// `/* */` block comments from index `i` in state `t`. An unterminated block
/// comment runs to the end of the input.
pub open spec fn trivia_end(input: Seq<char>, i: int, t: Trivia) -> int
    decreases input.len() - i, trivia_rank(t),
{
    if i < 0 || i > input.len() {
        i
    } else {
        match t {
            Trivia::Code => {
                if i < input.len() && whitespace(input[i]) {
                    trivia_end(input, i + 1, Trivia::Code)
                } else if char_at(input, i) == '/' && char_at(input, i + 1) == '/' {
                    trivia_end(input, i + 1, Trivia::LineComment)
                } else if char_at(input, i) == '/' && char_at(input, i + 1) == '*' {
                    trivia_end(input, i + 2, Trivia::BlockComment)
                } else {
                    i
                }
            },
            Trivia::LineComment => {
                if i < input.len() && input[i] != '\n' {
                    trivia_end(input, i + 1, Trivia::LineComment)
                } else {
                    trivia_end(input, i, Trivia::Code)
                }
            },
            Trivia::BlockComment => {
                if char_at(input, i) == '*' && char_at(input, i + 1) == '/' {
                    trivia_end(input, i + 2, Trivia::Code)
                } else if i >= input.len() {
                    trivia_end(input, i, Trivia::Code)
                } else {
                    trivia_end(input, i + 1, Trivia::BlockComment)
                }
            },
        }
    }
}

/// The cursor past white space and comments.
pub open spec fn skip_trivia(c: CursorView) -> CursorView {
    c.advance_to(trivia_end(c.input, c.pos, Trivia::Code))
}

/// What a string escape `\c` stands for; an unknown escape stays as written.
pub open spec fn escaped(c: char) -> Seq<char> {
    if c == 'n' {
        seq!['\n']
    } else if c == 't' {
        seq!['\t']
    } else if c == 'r' {
        seq!['\r']
    } else if c == '\\' {
        seq!['\\']
    } else if c == '"' {
        seq!['"']
    } else if c == '\'' {
        seq!['\'']
    } else if c == '0' {
        seq!['\0']
    } else {
        seq!['\\', c]
    }
}

/// The contents of a string literal whose body starts at index `i`, with
/// escapes resolved, and the index where it stops: a closing quote or the
/// end of the input. A backslash that ends the input is kept as written.
pub open spec fn string_body(input: Seq<char>, i: int) -> (Seq<char>, int)
    decreases input.len() - i,
{
    if i < 0 || i >= input.len() || input[i] == '"' {
        (seq![], i)
    } else if input[i] == '\\' {
        if i + 1 < input.len() {
            let rest = string_body(input, i + 2);
            (escaped(input[i + 1]) + rest.0, rest.1)
        } else {
            (seq!['\\'], input.len() as int)
        }
    } else {
        let rest = string_body(input, i + 1);
        (seq![input[i]] + rest.0, rest.1)
    }
}

pub proof fn lemma_string_body_bounds(input: Seq<char>, i: int)
    requires
        0 <= i <= input.len(),
    ensures
        i <= string_body(input, i).1 <= input.len(),
    decreases input.len() - i,
{
    if i < input.len() && input[i] != '"' {
        if input[i] == '\\' {
            if i + 1 < input.len() {
                lemma_string_body_bounds(input, i + 2);
            }
        } else {
            lemma_string_body_bounds(input, i + 1);
        }
    }
}

/// The number that a run of ASCII digits spells.
pub open spec fn digits_value(s: Seq<char>) -> nat
    decreases s.len(),
{
    if s.len() == 0 {
        0
    } else {
        digits_value(s.drop_last()) * 10 + ((s.last() as u32) - ('0' as u32)) as nat
    }
}

/// Appending a digit never lowers the value of a digit run.
pub proof fn lemma_digits_value_grows(s: Seq<char>, j: int)
    requires
        0 <= j <= s.len(),
        forall|k: int| 0 <= k < s.len() ==> ascii_digit(#[trigger] s[k]),
    ensures
        digits_value(s.subrange(0, j)) <= digits_value(s),
    decreases s.len() - j,
{
    if j < s.len() {
        let t = s.subrange(0, j + 1);
        assert(t.drop_last() =~= s.subrange(0, j));
        lemma_digits_value_grows(s, j + 1);
    } else {
        assert(s.subrange(0, j) =~= s);
    }
}

/// The value of an integer literal: zero where it does not fit in `i64`.
pub open spec fn integer_value(s: Seq<char>) -> i64 {
    if digits_value(s) <= i64::MAX {
        digits_value(s) as i64
    } else {
        0
    }
}

/// A string literal starting at the current `"`.
pub open spec fn string_token(s: LexState) -> (LexState, TokenModel) {
    let c = s.cursor;
    let body = string_body(c.input, c.pos + 1);
    let stop = c.step().advance_to(body.1);
    (
        s.at(stop.step()),
        TokenModel { kind: KindModel::Str(body.0), lexeme: body.0, line: stop.line, column: c.column },
    )
}

/// The end of a numeric literal starting at index `i`: digits, then a
/// fraction only where a digit follows the `.`.
pub open spec fn number_end(input: Seq<char>, i: int) -> int {
    let d = run_end(input, i, CharClass::Digit);
    if char_at(input, d) == '.' && ascii_digit(char_at(input, d + 1)) {
        run_end(input, d + 1, CharClass::Digit)
    } else {
        d
    }
}

/// Whether the numeric literal starting at index `i` has a fraction.
pub open spec fn number_is_float(input: Seq<char>, i: int) -> bool {
    number_end(input, i) != run_end(input, i, CharClass::Digit)
}

/// A numeric literal starting at the current digit.
pub open spec fn number_token(s: LexState) -> (LexState, TokenModel) {
    let c = s.cursor;
    let e = number_end(c.input, c.pos);
    let lit = c.input.subrange(c.pos, e);
    let kind = if number_is_float(c.input, c.pos) {
        KindModel::Float(lit)
    } else {
        KindModel::Plain(TokenKind::Integer(integer_value(lit)))
    };
    let d = c.advance_to(e);
    (s.at(d), TokenModel { kind, lexeme: lit, line: d.line, column: c.column })
}

/// A word starting at the current letter or `_`: `css!`, a boolean literal,
/// a keyword or an identifier.
pub open spec fn word_token(s: LexState) -> (LexState, TokenModel) {
    let c = s.cursor;
    let e = run_end(c.input, c.pos, CharClass::Word);
    let w = c.input.subrange(c.pos, e);
    let d = c.advance_to(e);
    if w == "css"@ && char_at(c.input, e) == '!' {
        (s.at(d.step()), token(TokenKind::CssMacro, "css!"@, d.step().line, c.column))
    } else {
        (s.at(d), token(word_kind(w), w, d.line, c.column))
    }
}

/// A lifetime starting at the current `'`; it is named without the quote.
pub open spec fn lifetime_token(s: LexState) -> (LexState, TokenModel) {
    let c = s.cursor;
    let d = c.step().skip(CharClass::Word);
    (
        s.at(d),
        TokenModel {
            kind: KindModel::Lifetime(c.input.subrange(c.pos + 1, d.pos)),
            lexeme: c.input.subrange(c.pos, d.pos),
            line: d.line,
            column: c.column,
        },
    )
}

/// Whether markup text starts here: inside an open element, outside any
/// expression hole, tag or closing tag, at a character that is not a
/// boundary, and not at mere white space before a boundary.
pub open spec fn text_ready(s: LexState) -> bool {
    let ch = s.cursor.ch();
    &&& s.jsx_mode && s.jsx_depth > 0
    &&& s.brace_depth == s.baseline()
    &&& !s.jsx_in_tag && !s.in_closing_tag
    &&& s.just_closed || !(ch == ')' || ch == ']' || ch == ',' || ch == ';')
    &&& !blank_before_boundary(s.cursor)
    &&& ch != '<' && ch != '{' && ch != '}' && !s.cursor.at_end()
}

/// White space that runs up to `}`, `)`, `]`, `<` or the end of the input.
pub open spec fn blank_before_boundary(c: CursorView) -> bool {
    let e = run_end(c.input, c.pos, CharClass::Space);
    let stop = char_at(c.input, e);
    whitespace(c.ch()) && (e >= c.input.len() || stop == '}' || stop == ')' || stop == ']' || stop
        == '<')
}

/// A run of markup text up to `<`, `{`, `}` or the end, trimmed.
pub open spec fn markup_text(s: LexState) -> (LexState, TokenModel) {
    let c = s.cursor;
    let e = run_end(c.input, c.pos, CharClass::MarkupText);
    let t = trimmed(c.input.subrange(c.pos, e));
    let d = c.advance_to(e);
    (s.at(d), TokenModel { kind: KindModel::Text(t), lexeme: t, line: d.line, column: c.column })
}

/// A raw selector up to `{`, a newline or the end, without trailing white space.
pub open spec fn selector_token(s: LexState) -> (LexState, TokenModel) {
    let c = s.cursor;
    let e = run_end(c.input, c.pos, CharClass::Selector);
    let t = trim_end(c.input.subrange(c.pos, e));
    let d = c.advance_to(e);
    (s.at(d), TokenModel { kind: KindModel::Selector(t), lexeme: t, line: d.line, column: c.column })
}

/// A property name: letters, digits and `-`.
pub open spec fn property_token(s: LexState) -> (LexState, TokenModel) {
    let c = s.cursor;
    let d = c.skip(CharClass::StyleName);
    let t = c.input.subrange(c.pos, d.pos);
    (s.at(d), TokenModel { kind: KindModel::Property(t), lexeme: t, line: d.line, column: c.column })
}

/// A raw value up to `;`, `}` or the end, trimmed.
pub open spec fn value_token(s: LexState) -> (LexState, TokenModel) {
    let c = s.cursor;
    let e = run_end(c.input, c.pos, CharClass::StyleValue);
    let t = trimmed(c.input.subrange(c.pos, e));
    let d = c.advance_to(e);
    (s.at(d), TokenModel { kind: KindModel::Value(t), lexeme: t, line: d.line, column: c.column })
}

/// A number in a style block, with a `%` or an alphabetic unit fused on.
pub open spec fn dimension_token(s: LexState) -> (LexState, TokenModel) {
    let c = s.cursor;
    let n = number_token(s);
    let e = n.0.cursor.pos;
    let end = if char_at(c.input, e) == '%' {
        e + 1
    } else {
        run_end(c.input, e, CharClass::Alpha)
    };
    let t = c.input.subrange(c.pos, end);
    (
        n.0.at(n.0.cursor.advance_to(end)),
        TokenModel { kind: KindModel::Value(t), lexeme: t, line: n.1.line, column: n.1.column },
    )
}

/// An at-rule: `@media` (which opens a media condition) or `@keyframes`;
/// any other `@` is a plain at-sign, and the cursor stays right after it.
pub open spec fn at_rule_token(s: LexState) -> (LexState, TokenModel) {
    let c = s.cursor;
    let a = c.step();
    let e = run_end(c.input, a.pos, CharClass::Word);
    let w = c.input.subrange(a.pos, e);
    let d = a.advance_to(e);
    if w == "media"@ {
        (
            LexState { in_media_query: true, ..s.at(d) },
            token(TokenKind::CssMedia, "@media"@, d.line, c.column),
        )
    } else if w == "keyframes"@ {
        (s.at(d), token(TokenKind::CssKeyframes, "@keyframes"@, d.line, c.column))
    } else {
        (s.at(a), token(TokenKind::At, "@"@, a.line, c.column))
    }
}

/// A word in a style block: a property where a condition is open or a `:`
/// follows, a selector where a `{` follows, else a value.
pub open spec fn style_word_token(s: LexState) -> (LexState, TokenModel) {
    let c = s.cursor;
    if s.css_paren_depth > 0 || s.in_media_query {
        property_token(s)
    } else {
        let p = run_end(c.input, c.pos, CharClass::StyleName);
        let q = run_end(c.input, p, CharClass::Space);
        if char_at(c.input, q) == ':' {
            property_token(s)
        } else if char_at(c.input, q) == '{' {
            selector_token(s)
        } else {
            value_token(s)
        }
    }
}

/// The next token in style mode.
pub open spec fn style_token(s: LexState) -> (LexState, TokenModel) {
    let s1 = s.at(skip_trivia(s.cursor));
    let ch = s1.cursor.ch();
    if ch == '{' {
        emit_after(
            LexState { css_depth: s.css_depth + 1, in_media_query: false, ..s1 },
            1,
            TokenKind::LBrace,
            "{"@,
        )
    } else if ch == '}' {
        let d: nat = if s.css_depth > 0 {
            (s.css_depth - 1) as nat
        } else {
            0
        };
        emit_after(
            LexState { css_depth: d, css_mode: s.css_mode && d != 0, ..s1 },
            1,
            TokenKind::RBrace,
            "}"@,
        )
    } else if ch == ';' {
        emit_after(s1, 1, TokenKind::Semicolon, ";"@)
    } else if ch == ':' {
        emit_after(s1, 1, TokenKind::Colon, ":"@)
    } else if ch == '(' {
        emit_after(
            LexState { css_paren_depth: s.css_paren_depth + 1, ..s1 },
            1,
            TokenKind::LParen,
            "("@,
        )
    } else if ch == ')' {
        let d: nat = if s.css_paren_depth > 0 {
            (s.css_paren_depth - 1) as nat
        } else {
            0
        };
        emit_after(LexState { css_paren_depth: d, ..s1 }, 1, TokenKind::RParen, ")"@)
    } else if ch == '.' || ch == '#' || ch == '&' {
        selector_token(s1)
    } else if ch == '@' {
        at_rule_token(s1)
    } else if s1.cursor.at_end() {
        (s1, token(TokenKind::Eof, ""@, s1.cursor.line, s1.cursor.column))
    } else if alphabetic(ch) || ch == '-' {
        style_word_token(s1)
    } else if ch == '"' {
        string_token(s1)
    } else if ascii_digit(ch) {
        if s.css_paren_depth > 0 || s.in_media_query {
            number_token(s1)
        } else {
            dimension_token(s1)
        }
    } else {
        emit_after(s1, 1, TokenKind::Illegal(ch), seq![ch])
    }
}

/// Whether `c` starts an operator or separator of the host language.
pub open spec fn is_operator_start(c: char) -> bool {
    c == ':' || c == '=' || c == ';' || c == '|' || c == ',' || c == '.' || c == '+' || c == '*'
        || c == '%' || c == '&' || c == '?' || c == '!' || c == '(' || c == ')'
}

/// Whether `c` is a brace, bracket, angle bracket, `/` or `-`.
pub open spec fn is_bracket_start(c: char) -> bool {
    c == '{' || c == '}' || c == '[' || c == ']' || c == '<' || c == '>' || c == '/' || c == '-'
}

/// An operator or separator at the current character.
pub open spec fn operator_token(s: LexState) -> (LexState, TokenModel) {
    let c = s.cursor;
    let ch = c.ch();
    let nx = c.next_ch();
    if ch == ':' {
        if nx == ':' {
            emit_after(s, 2, TokenKind::DoubleColon, "::"@)
        } else {
            emit_before(s, TokenKind::Colon, ":"@)
        }
    } else if ch == '=' {
        if nx == '>' {
            emit_after(s, 2, TokenKind::FatArrow, "=>"@)
        } else if nx == '=' {
            emit_after(s, 2, TokenKind::Eq, "=="@)
        } else {
            emit_before(s, TokenKind::Assign, "="@)
        }
    } else if ch == ';' {
        emit_before(s, TokenKind::Semicolon, ";"@)
    } else if ch == '|' {
        if nx == '|' {
            emit_after(s, 2, TokenKind::PipePipe, "||"@)
        } else {
            emit_before(s, TokenKind::Pipe, "|"@)
        }
    } else if ch == ',' {
        emit_before(s, TokenKind::Comma, ","@)
    } else if ch == '.' {
        if nx == '.' {
            let third = char_at(c.input, c.pos + 2);
            if third == '.' {
                emit_after(s, 3, TokenKind::DotDotDot, "..."@)
            } else if third == '=' {
                emit_after(s, 3, TokenKind::DotDotEq, "..="@)
            } else {
                emit_after(s, 2, TokenKind::DotDot, ".."@)
            }
        } else {
            emit_before(s, TokenKind::Dot, "."@)
        }
    } else if ch == '+' {
        emit_before(s, TokenKind::Plus, "+"@)
    } else if ch == '*' {
        emit_before(s, TokenKind::Star, "*"@)
    } else if ch == '%' {
        emit_before(s, TokenKind::Percent, "%"@)
    } else if ch == '&' {
        if nx == '&' {
            emit_after(s, 2, TokenKind::AmpAmp, "&&"@)
        } else {
            emit_before(s, TokenKind::Ampersand, "&"@)
        }
    } else if ch == '?' {
        emit_before(s, TokenKind::Question, "?"@)
    } else if ch == '!' {
        if nx == '=' {
            emit_after(s, 2, TokenKind::NotEq, "!="@)
        } else {
            emit_before(s, TokenKind::Bang, "!"@)
        }
    } else if ch == '(' {
        emit_before(s, TokenKind::LParen, "("@)
    } else {
        emit_before(s, TokenKind::RParen, ")"@)
    }
}

/// A brace, bracket, angle bracket, `/` or `-` at the current character. In
/// markup mode braces track the shared depth, and a brace one level below the
/// element's baseline opens or closes an expression hole. `<` marks a tag as
/// open; `>` closes it only at the baseline depth.
pub open spec fn bracket_token(s: LexState) -> (LexState, TokenModel) {
    let c = s.cursor;
    let ch = c.ch();
    let nx = c.next_ch();
    if ch == '{' {
        if s.jsx_mode {
            let d = s.brace_depth + 1;
            let kind = if d == s.baseline() + 1 {
                TokenKind::JsxOpenBrace
            } else {
                TokenKind::LBrace
            };
            emit_before(LexState { brace_depth: d, ..s }, kind, "{"@)
        } else {
            emit_before(s, TokenKind::LBrace, "{"@)
        }
    } else if ch == '}' {
        if s.jsx_mode && s.brace_depth > 0 {
            let hole = s.brace_depth == s.baseline() + 1;
            let kind = if hole {
                TokenKind::JsxCloseBrace
            } else {
                TokenKind::RBrace
            };
            emit_before(
                LexState { brace_depth: (s.brace_depth - 1) as nat, just_closed: hole, ..s },
                kind,
                "}"@,
            )
        } else {
            emit_before(s, TokenKind::RBrace, "}"@)
        }
    } else if ch == '[' {
        emit_before(s, TokenKind::LBracket, "["@)
    } else if ch == ']' {
        emit_before(s, TokenKind::RBracket, "]"@)
    } else if ch == '<' {
        if nx == '=' {
            emit_after(s, 2, TokenKind::LtEq, "<="@)
        } else {
            emit_before(LexState { jsx_in_tag: true, ..s }, TokenKind::LAngle, "<"@)
        }
    } else if ch == '>' {
        if nx == '=' {
            emit_after(s, 2, TokenKind::GtEq, ">="@)
        } else {
            let in_tag = s.jsx_in_tag && s.brace_depth != s.baseline();
            emit_before(LexState { jsx_in_tag: in_tag, ..s }, TokenKind::RAngle, ">"@)
        }
    } else if ch == '/' {
        if nx == '>' && s.jsx_mode {
            emit_after(LexState { jsx_in_tag: false, ..s }, 2, TokenKind::JsxSelfClose, "/>"@)
        } else {
            emit_before(s, TokenKind::Slash, "/"@)
        }
    } else if nx == '>' {
        emit_after(s, 2, TokenKind::Arrow, "->"@)
    } else {
        emit_before(s, TokenKind::Minus, "-"@)
    }
}

/// Any other token at the current character: `@`, end of input, a string,
/// a lifetime, a word, a number, or an illegal character.
pub open spec fn literal_token(s: LexState) -> (LexState, TokenModel) {
    let c = s.cursor;
    let ch = c.ch();
    let nx = c.next_ch();
    if ch == '@' {
        emit_before(s, TokenKind::At, "@"@)
    } else if c.at_end() {
        emit_before(s, TokenKind::Eof, ""@)
    } else if ch == '"' {
        string_token(s)
    } else if ch == '\'' {
        if alphabetic(nx) || nx == '_' {
            lifetime_token(s)
        } else {
            emit_before(s, TokenKind::Illegal('\''), "'"@)
        }
    } else if alphabetic(ch) || ch == '_' {
        word_token(s)
    } else if ascii_digit(ch) {
        number_token(s)
    } else {
        emit_before(s, TokenKind::Illegal(ch), seq![ch])
    }
}

/// The next token of the host language, after white space and comments.
pub open spec fn core_token(s: LexState) -> (LexState, TokenModel) {
    let s1 = s.at(skip_trivia(s.cursor));
    let ch = s1.cursor.ch();
    if is_operator_start(ch) {
        operator_token(s1)
    } else if is_bracket_start(ch) {
        bracket_token(s1)
    } else {
        literal_token(s1)
    }
}

/// One call of `next_token`: the next state and the token returned. Markup
/// text takes precedence, then style mode, then the host language.
pub open spec fn lex(s: LexState) -> (LexState, TokenModel) {
    let s0 = LexState { just_closed: false, ..s };
    if text_ready(s) {
        markup_text(s0)
    } else if s.css_mode {
        style_token(s0)
    } else {
        core_token(s0)
    }
}

} // verus!
