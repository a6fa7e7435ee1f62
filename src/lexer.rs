use vstd::prelude::*;

use crate::laws::{lemma_lex_keeps_well_formed, lemma_modes_after_token};
use crate::cursor::{
    char_at, lemma_advance, lemma_advance_compose, lemma_run_end_bounds, lemma_step_after,
    lemma_step_is_advance, run_end, Cursor, CursorView,
};
use crate::rules::{
    at_rule_token, bracket_token, core_token, digits_value, dimension_token, emit_after,
    emit_before, escaped, integer_value, is_bracket_start, is_operator_start,
    lemma_digits_value_grows, lex, lifetime_token, literal_token, markup_text, number_end,
    number_token, operator_token, property_token, selector_token, skip_trivia, string_body,
    string_token, style_token, style_word_token, text_ready, trivia_end, trivia_rank, value_token,
    word_token, LexState, Trivia,
};
use crate::text::{
    ascii_digit, char_string, chars_of, class_contains, string_of, trim_bounds, trim_end_bound,
    CharClass,
};
use crate::token::{classify_word, KindModel, Token, TokenKind};

verus! {

/// A lexer over one source unit. The parser steers it between the host
/// language, markup mode and style mode through the mode-transition methods.
pub struct Lexer {
    cursor: Cursor,
    jsx_mode: bool,
    jsx_depth: usize,
    brace_depth: usize,
    jsx_in_tag: bool,
    in_closing_tag: bool,
    jsx_baseline_brace_depths: Vec<usize>,
    just_closed_jsx_expr: bool,
    css_mode: bool,
    css_depth: usize,
    css_paren_depth: usize,
    in_media_query: bool,
}

impl View for Lexer {
    type V = LexState;

    closed spec fn view(&self) -> LexState {
        LexState {
            cursor: self.cursor@,
            jsx_mode: self.jsx_mode,
            jsx_depth: self.jsx_depth as nat,
            brace_depth: self.brace_depth as nat,
            jsx_in_tag: self.jsx_in_tag,
            in_closing_tag: self.in_closing_tag,
            baselines: self.jsx_baseline_brace_depths@,
            just_closed: self.just_closed_jsx_expr,
            css_mode: self.css_mode,
            css_depth: self.css_depth as nat,
            css_paren_depth: self.css_paren_depth as nat,
            in_media_query: self.in_media_query,
        }
    }
}

/// The state of a fresh lexer over `input`.
pub open spec fn initial_state(input: Seq<char>) -> LexState {
    LexState {
        cursor: CursorView::start(input),
        jsx_mode: false,
        jsx_depth: 0,
        brace_depth: 0,
        jsx_in_tag: false,
        in_closing_tag: false,
        baselines: seq![],
        just_closed: false,
        css_mode: false,
        css_depth: 0,
        css_paren_depth: 0,
        in_media_query: false,
    }
}

impl Lexer {
    /// The lexer's invariant, which `new` establishes and every method keeps.
    pub closed spec fn wf(&self) -> bool {
        &&& self.cursor.wf()
        &&& self@.well_formed()
    }

    /// A lexer on the first character of `input`, in the host language. The
    /// bound on the length is that of every `String`, whose byte length fits
    /// in `isize`; it keeps positions, lines and columns within `usize`.
    pub fn new(input: String) -> (r: Self)
        requires
            input@.len() <= isize::MAX,
        ensures
            r.wf(),
            r@ == initial_state(input@),
    {
        let chars = chars_of(input.as_str());
        Lexer {
            cursor: Cursor::new(chars),
            jsx_mode: false,
            jsx_depth: 0,
            brace_depth: 0,
            jsx_in_tag: false,
            in_closing_tag: false,
            jsx_baseline_brace_depths: Vec::new(),
            just_closed_jsx_expr: false,
            css_mode: false,
            css_depth: 0,
            css_paren_depth: 0,
            in_media_query: false,
        }
    }

    /// Enters a markup element: markup mode is on, one more element is open,
    /// and the current brace depth becomes its baseline.
    pub fn enter_jsx_mode(&mut self)
        requires
            old(self).wf(),
            old(self)@.jsx_depth < usize::MAX,
        ensures
            final(self).wf(),
            final(self)@.baselines.len() == final(self)@.jsx_depth,
            final(self)@ == (LexState {
                jsx_mode: true,
                jsx_depth: old(self)@.jsx_depth + 1,
                baselines: old(self)@.baselines.push(old(self)@.brace_depth as usize),
                ..old(self)@
            }),
    {
        self.jsx_mode = true;
        self.jsx_depth = self.jsx_depth + 1;
        self.jsx_baseline_brace_depths.push(self.brace_depth);
    }

    /// Enters a markup element nested in an expression hole: one more element
    /// is open, with the current brace depth as its baseline.
    pub fn enter_nested_jsx(&mut self)
        requires
            old(self).wf(),
            old(self)@.jsx_depth < usize::MAX,
        ensures
            final(self).wf(),
            final(self)@.baselines.len() == final(self)@.jsx_depth,
            final(self)@ == (LexState {
                jsx_depth: old(self)@.jsx_depth + 1,
                baselines: old(self)@.baselines.push(old(self)@.brace_depth as usize),
                ..old(self)@
            }),
    {
        self.jsx_depth = self.jsx_depth + 1;
        self.jsx_baseline_brace_depths.push(self.brace_depth);
    }

    /// Leaves the innermost markup element, if any; markup mode ends when no
    /// element is left open.
    pub fn exit_jsx_mode(&mut self)
        requires
            old(self).wf(),
        ensures
            final(self).wf(),
            final(self)@.baselines.len() == final(self)@.jsx_depth,
            final(self)@ == ({
                let s = old(self)@;
                if s.jsx_depth > 0 {
                    LexState {
                        jsx_depth: (s.jsx_depth - 1) as nat,
                        baselines: s.baselines.drop_last(),
                        jsx_mode: s.jsx_mode && s.jsx_depth > 1,
                        ..s
                    }
                } else {
                    LexState { jsx_mode: false, ..s }
                }
            }),
    {
        if self.jsx_depth > 0 {
            self.jsx_depth = self.jsx_depth - 1;
            self.jsx_baseline_brace_depths.pop();
        }
        if self.jsx_depth == 0 {
            self.jsx_mode = false;
        }
    }

    pub fn is_jsx_mode(&self) -> (r: bool)
        requires
            self.wf(),
        ensures
            r == self@.jsx_mode,
    {
        self.jsx_mode
    }

    /// Marks that the parser is reading a closing tag: no markup text is read.
    pub fn enter_closing_tag_mode(&mut self)
        requires
            old(self).wf(),
        ensures
            final(self).wf(),
            final(self)@ == (LexState { in_closing_tag: true, ..old(self)@ }),
    {
        self.in_closing_tag = true;
    }

    pub fn exit_closing_tag_mode(&mut self)
        requires
            old(self).wf(),
        ensures
            final(self).wf(),
            final(self)@ == (LexState { in_closing_tag: false, ..old(self)@ }),
    {
        self.in_closing_tag = false;
    }

    /// Counts a brace that the parser consumed itself.
    pub fn increment_brace_depth(&mut self)
        requires
            old(self).wf(),
            old(self)@.brace_depth < usize::MAX,
        ensures
            final(self).wf(),
            final(self)@ == (LexState { brace_depth: old(self)@.brace_depth + 1, ..old(self)@ }),
    {
        self.brace_depth = self.brace_depth + 1;
    }

    /// Uncounts a brace that the parser consumed itself; the depth stays at 0
    /// rather than going below.
    pub fn decrement_brace_depth(&mut self)
        requires
            old(self).wf(),
        ensures
            final(self).wf(),
            final(self)@ == (LexState {
                brace_depth: if old(self)@.brace_depth > 0 {
                    (old(self)@.brace_depth - 1) as nat
                } else {
                    0
                },
                ..old(self)@
            }),
    {
        if self.brace_depth > 0 {
            self.brace_depth = self.brace_depth - 1;
        }
    }

    /// Enters style mode after the opening brace of `css! {`: the style
    /// brace depth starts at 1.
    pub fn enter_css_mode(&mut self)
        requires
            old(self).wf(),
        ensures
            final(self).wf(),
            final(self)@ == (LexState { css_mode: true, css_depth: 1, ..old(self)@ }),
    {
        self.css_mode = true;
        self.css_depth = 1;
    }

    /// Leaves style mode and resets both style depth counters.
    pub fn exit_css_mode(&mut self)
        requires
            old(self).wf(),
        ensures
            final(self).wf(),
            final(self)@ == (LexState {
                css_mode: false,
                css_depth: 0,
                css_paren_depth: 0,
                ..old(self)@
            }),
    {
        self.css_mode = false;
        self.css_depth = 0;
        self.css_paren_depth = 0;
    }

    pub fn is_css_mode(&self) -> (r: bool)
        requires
            self.wf(),
        ensures
            r == self@.css_mode,
    {
        self.css_mode
    }
}

impl Lexer {
    /// Steps the cursor once.
    fn bump(&mut self)
        requires
            old(self).wf(),
        ensures
            final(self).wf(),
            final(self)@ == old(self)@.at(old(self)@.cursor.step()),
    {
        self.cursor.read_char();
    }

    /// Steps the cursor until index `target`.
    fn advance_to(&mut self, target: usize)
        requires
            old(self).wf(),
            old(self)@.cursor.pos <= target <= old(self)@.cursor.input.len(),
        ensures
            final(self).wf(),
            final(self)@ == old(self)@.at(old(self)@.cursor.advance_to(target as int)),
            final(self)@.cursor.pos == target,
            final(self)@.cursor.input == old(self)@.cursor.input,
    {
        proof {
            lemma_advance(self@.cursor, target as int);
        }
        self.cursor.advance_to(target);
    }

    /// Skips white space and comments.
    fn skip_whitespace(&mut self)
        requires
            old(self).wf(),
        ensures
            final(self).wf(),
            final(self)@ == old(self)@.at(skip_trivia(old(self)@.cursor)),
    {
        let ghost start = self@;
        let ghost input = self@.cursor.input;
        let ghost target = trivia_end(input, start.cursor.pos, Trivia::Code);
        let mut st = Trivia::Code;
        loop
            invariant
                self.wf(),
                start.well_formed(),
                start == old(self)@,
                start.cursor.input == input,
                self@.cursor.input == input,
                target == trivia_end(input, start.cursor.pos, Trivia::Code),
                start.cursor.pos <= self@.cursor.pos <= input.len(),
                self@ == start.at(start.cursor.advance_to(self@.cursor.pos)),
                trivia_end(input, self@.cursor.pos, st) == target,
            ensures
                self@.cursor.pos == target,
            decreases input.len() - self@.cursor.pos, trivia_rank(st),
        {
            let ch = self.cursor.ch();
            let pos = self.cursor.position();
            let ghost before = self@.cursor.pos;
            let ghost mid = self@.cursor;
            proof {
                lemma_advance(start.cursor, before);
                lemma_step_is_advance(mid);
            }
            match st {
                Trivia::Code => {
                    if pos < self.cursor.len() && class_contains(CharClass::Space, ch) {
                        self.bump();
                    } else if ch == '/' && self.cursor.peek() == '/' {
                        self.bump();
                        st = Trivia::LineComment;
                    } else if ch == '/' && self.cursor.peek() == '*' {
                        self.advance_to(pos + 2);
                        st = Trivia::BlockComment;
                    } else {
                        break ;
                    }
                },
                Trivia::LineComment => {
                    if !self.cursor.at_end() && ch != '\n' {
                        self.bump();
                    } else {
                        st = Trivia::Code;
                    }
                },
                Trivia::BlockComment => {
                    if ch == '*' && self.cursor.peek() == '/' {
                        self.advance_to(pos + 2);
                        st = Trivia::Code;
                    } else if self.cursor.at_end() {
                        st = Trivia::Code;
                    } else {
                        self.bump();
                    }
                },
            }
            proof {
                lemma_advance_compose(start.cursor, before, self@.cursor.pos);
            }
        }
    }

    /// A one-character token reported at the current line.
    fn emit_before(&mut self, kind: TokenKind, lexeme: String) -> (t: Token)
        requires
            old(self).wf(),
            kind@ == KindModel::Plain(kind),
        ensures
            final(self).wf(),
            (final(self)@, t@) == emit_before(old(self)@, kind, lexeme@),
    {
        let line = self.cursor.line();
        let column = self.cursor.column();
        self.bump();
        Token::new(kind, lexeme, line, column)
    }

    /// An `n`-character token reported at the line reached after it.
    fn emit_after(&mut self, n: usize, kind: TokenKind, lexeme: String) -> (t: Token)
        requires
            old(self).wf(),
            old(self)@.cursor.pos + n <= old(self)@.cursor.input.len(),
            kind@ == KindModel::Plain(kind),
        ensures
            final(self).wf(),
            (final(self)@, t@) == emit_after(old(self)@, n as int, kind, lexeme@),
    {
        let column = self.cursor.column();
        let target = self.cursor.position() + n;
        self.advance_to(target);
        Token::new(kind, lexeme, self.cursor.line(), column)
    }

    /// A string literal; escapes are resolved, and an unterminated literal
    /// holds what was read up to the end.
    fn read_string(&mut self) -> (t: Token)
        requires
            old(self).wf(),
            old(self)@.cursor.ch() == '"',
        ensures
            final(self).wf(),
            (final(self)@, t@) == string_token(old(self)@),
    {
        let column = self.cursor.column();
        self.bump();
        let ghost s0 = self@;
        let ghost input = s0.cursor.input;
        let ghost body = string_body(input, s0.cursor.pos);
        let mut result: Vec<char> = Vec::new();
        loop
            invariant
                self.wf(),
                s0.well_formed(),
                s0.cursor.input == input,
                self@.cursor.input == input,
                body == string_body(input, s0.cursor.pos),
                s0.cursor.pos <= self@.cursor.pos <= input.len(),
                self@ == s0.at(s0.cursor.advance_to(self@.cursor.pos)),
                result@ + string_body(input, self@.cursor.pos).0 == body.0,
                string_body(input, self@.cursor.pos).1 == body.1,
            ensures
                result@ == body.0,
                self@.cursor.pos == body.1,
            decreases input.len() - self@.cursor.pos,
        {
            let ch = self.cursor.ch();
            let ghost p = self@.cursor.pos;
            proof {
                lemma_step_after(s0.cursor, p);
            }
            if ch == '"' || self.cursor.at_end() {
                assert(string_body(input, p).0 =~= Seq::<char>::empty());
                assert(result@ =~= result@ + string_body(input, p).0);
                break ;
            }
            if ch == '\\' {
                let ghost prev = result@;
                self.bump();
                if self.cursor.at_end() {
                    result.push('\\');
                    assert(result@ + string_body(input, self@.cursor.pos).0 =~= prev
                        + string_body(input, p).0);
                    continue ;
                }
                let e = self.cursor.ch();
                proof {
                    lemma_step_after(s0.cursor, p + 1);
                }
                push_escape(&mut result, e);
                self.bump();
                assert(result@ + string_body(input, self@.cursor.pos).0 =~= prev + (escaped(e)
                    + string_body(input, self@.cursor.pos).0));
            } else {
                let ghost prev = result@;
                result.push(ch);
                self.bump();
                assert(result@ + string_body(input, self@.cursor.pos).0 =~= prev + (seq![ch]
                    + string_body(input, self@.cursor.pos).0));
            }
        }
        let text = string_of(result.as_slice(), 0, result.len());
        assert(result@.subrange(0, result@.len() as int) =~= result@);
        let line = self.cursor.line();
        self.bump();
        Token::new(TokenKind::String(text.clone()), text, line, column)
    }

    /// A numeric literal: an integer, or a float kept as its text.
    fn read_number(&mut self) -> (t: Token)
        requires
            old(self).wf(),
        ensures
            final(self).wf(),
            (final(self)@, t@) == number_token(old(self)@),
    {
        let start = self.cursor.position();
        let column = self.cursor.column();
        let d = self.cursor.run_end(start, CharClass::Digit);
        proof {
            lemma_run_end_bounds(self@.cursor.input, start as int, CharClass::Digit);
        }
        let end = if self.cursor.char_at(d) == '.' && class_contains(
            CharClass::Digit,
            self.cursor.char_at(d + 1),
        ) {
            proof {
                lemma_run_end_bounds(self@.cursor.input, d + 1, CharClass::Digit);
            }
            self.cursor.run_end(d + 1, CharClass::Digit)
        } else {
            d
        };
        let lit = self.cursor.text(start, end);
        let kind = if end != d {
            TokenKind::Float(lit.clone())
        } else {
            TokenKind::Integer(integer_of(self.cursor.chars(), start, end))
        };
        self.advance_to(end);
        Token::new(kind, lit, self.cursor.line(), column)
    }

    /// A word: `css!`, a boolean literal, a keyword or an identifier.
    fn read_identifier(&mut self) -> (t: Token)
        requires
            old(self).wf(),
        ensures
            final(self).wf(),
            (final(self)@, t@) == word_token(old(self)@),
    {
        let start = self.cursor.position();
        let column = self.cursor.column();
        let e = self.cursor.run_end(start, CharClass::Word);
        if self.cursor.spells(start, e, "css") && self.cursor.char_at(e) == '!' {
            self.advance_to(e);
            self.bump();
            Token::new(TokenKind::CssMacro, String::from_str("css!"), self.cursor.line(), column)
        } else {
            let kind = classify_word(self.cursor.chars(), start, e);
            let word = self.cursor.text(start, e);
            self.advance_to(e);
            Token::new(kind, word, self.cursor.line(), column)
        }
    }

    /// A lifetime such as `'a`; the token names it without the quote.
    fn read_lifetime(&mut self) -> (t: Token)
        requires
            old(self).wf(),
            !old(self)@.cursor.at_end(),
        ensures
            final(self).wf(),
            (final(self)@, t@) == lifetime_token(old(self)@),
    {
        let start = self.cursor.position();
        let column = self.cursor.column();
        self.bump();
        let e = self.cursor.run_end(start + 1, CharClass::Word);
        self.advance_to(e);
        let name = self.cursor.text(start + 1, e);
        let literal = self.cursor.text(start, e);
        Token::new(TokenKind::Lifetime(name), literal, self.cursor.line(), column)
    }

    /// A raw selector up to `{` or the end of the line.
    fn read_css_selector(&mut self) -> (t: Token)
        requires
            old(self).wf(),
        ensures
            final(self).wf(),
            (final(self)@, t@) == selector_token(old(self)@),
    {
        let start = self.cursor.position();
        let column = self.cursor.column();
        let e = self.cursor.run_end(start, CharClass::Selector);
        let b = trim_end_bound(self.cursor.chars(), start, e);
        let selector = self.cursor.text(start, b);
        self.advance_to(e);
        Token::new(TokenKind::CssSelector(selector.clone()), selector, self.cursor.line(), column)
    }

    /// A property name: letters, digits and `-`.
    fn read_css_property(&mut self) -> (t: Token)
        requires
            old(self).wf(),
        ensures
            final(self).wf(),
            (final(self)@, t@) == property_token(old(self)@),
    {
        let start = self.cursor.position();
        let column = self.cursor.column();
        let e = self.cursor.run_end(start, CharClass::StyleName);
        let property = self.cursor.text(start, e);
        self.advance_to(e);
        Token::new(TokenKind::CssProperty(property.clone()), property, self.cursor.line(), column)
    }

    /// A raw value up to `;` or `}`, trimmed.
    fn read_css_value(&mut self) -> (t: Token)
        requires
            old(self).wf(),
        ensures
            final(self).wf(),
            (final(self)@, t@) == value_token(old(self)@),
    {
        let start = self.cursor.position();
        let column = self.cursor.column();
        let e = self.cursor.run_end(start, CharClass::StyleValue);
        let (a, b) = trim_bounds(self.cursor.chars(), start, e);
        let value = self.cursor.text(a, b);
        self.advance_to(e);
        Token::new(TokenKind::CssValue(value.clone()), value, self.cursor.line(), column)
    }

    /// A number in a style block with its `%` or unit, as one value.
    fn read_css_dimension(&mut self) -> (t: Token)
        requires
            old(self).wf(),
        ensures
            final(self).wf(),
            (final(self)@, t@) == dimension_token(old(self)@),
    {
        let start = self.cursor.position();
        let ghost c = self@.cursor;
        proof {
            let d = run_end(c.input, c.pos, CharClass::Digit);
            lemma_run_end_bounds(c.input, c.pos, CharClass::Digit);
            if char_at(c.input, d) == '.' {
                lemma_run_end_bounds(c.input, d + 1, CharClass::Digit);
            }
            lemma_advance(c, number_end(c.input, c.pos));
        }
        let number = self.read_number();
        let e = self.cursor.position();
        let end = if self.cursor.ch() == '%' {
            e + 1
        } else {
            self.cursor.run_end(e, CharClass::Alpha)
        };
        self.advance_to(end);
        let value = self.cursor.text(start, end);
        Token::new(TokenKind::CssValue(value.clone()), value, number.line, number.column)
    }

    /// `@media`, `@keyframes`, or a plain `@` with the cursor right after it.
    fn read_at_rule(&mut self) -> (t: Token)
        requires
            old(self).wf(),
            !old(self)@.cursor.at_end(),
        ensures
            final(self).wf(),
            (final(self)@, t@) == at_rule_token(old(self)@),
    {
        let column = self.cursor.column();
        self.bump();
        let a = self.cursor.position();
        let e = self.cursor.run_end(a, CharClass::Word);
        if self.cursor.spells(a, e, "media") {
            self.advance_to(e);
            self.in_media_query = true;
            Token::new(TokenKind::CssMedia, String::from_str("@media"), self.cursor.line(), column)
        } else if self.cursor.spells(a, e, "keyframes") {
            self.advance_to(e);
            Token::new(
                TokenKind::CssKeyframes,
                String::from_str("@keyframes"),
                self.cursor.line(),
                column,
            )
        } else {
            Token::new(TokenKind::At, String::from_str("@"), self.cursor.line(), column)
        }
    }

    /// A word in a style block: property, selector or value, by what follows.
    fn read_css_word(&mut self) -> (t: Token)
        requires
            old(self).wf(),
        ensures
            final(self).wf(),
            (final(self)@, t@) == style_word_token(old(self)@),
    {
        if self.css_paren_depth > 0 || self.in_media_query {
            return self.read_css_property();
        }
        let p = self.cursor.run_end(self.cursor.position(), CharClass::StyleName);
        let q = self.cursor.run_end(p, CharClass::Space);
        let next = self.cursor.char_at(q);
        if next == ':' {
            self.read_css_property()
        } else if next == '{' {
            self.read_css_selector()
        } else {
            self.read_css_value()
        }
    }

    /// The next token in style mode.
    fn next_css_token(&mut self) -> (t: Token)
        requires
            old(self).wf(),
            old(self)@.css_mode,
        ensures
            final(self).wf(),
            (final(self)@, t@) == style_token(old(self)@),
    {
        self.skip_whitespace();
        let ch = self.cursor.ch();
        let column = self.cursor.column();
        let ghost s1 = self@;
        proof {
            lemma_step_after(s1.cursor, s1.cursor.pos);
            lemma_step_is_advance(s1.cursor);
        }
        if ch == '{' {
            self.bump();
            self.css_depth = self.css_depth + 1;
            self.in_media_query = false;
            Token::new(TokenKind::LBrace, String::from_str("{"), self.cursor.line(), column)
        } else if ch == '}' {
            if self.css_depth > 0 {
                self.css_depth = self.css_depth - 1;
            }
            if self.css_depth == 0 {
                self.css_mode = false;
            }
            self.emit_after(1, TokenKind::RBrace, String::from_str("}"))
        } else if ch == ';' {
            self.emit_after(1, TokenKind::Semicolon, String::from_str(";"))
        } else if ch == ':' {
            self.emit_after(1, TokenKind::Colon, String::from_str(":"))
        } else if ch == '(' {
            self.bump();
            self.css_paren_depth = self.css_paren_depth + 1;
            Token::new(TokenKind::LParen, String::from_str("("), self.cursor.line(), column)
        } else if ch == ')' {
            if self.css_paren_depth > 0 {
                self.css_paren_depth = self.css_paren_depth - 1;
            }
            self.emit_after(1, TokenKind::RParen, String::from_str(")"))
        } else if ch == '.' || ch == '#' || ch == '&' {
            self.read_css_selector()
        } else if ch == '@' {
            self.read_at_rule()
        } else if self.cursor.at_end() {
            Token::new(TokenKind::Eof, String::from_str(""), self.cursor.line(), column)
        } else if class_contains(CharClass::Alpha, ch) || ch == '-' {
            self.read_css_word()
        } else if ch == '"' {
            self.read_string()
        } else if class_contains(CharClass::Digit, ch) {
            if self.css_paren_depth > 0 || self.in_media_query {
                self.read_number()
            } else {
                self.read_css_dimension()
            }
        } else {
            self.emit_after(1, TokenKind::Illegal(ch), char_string(ch))
        }
    }

    /// The brace depth recorded for the innermost open markup element, or 0.
    fn baseline(&self) -> (r: usize)
        requires
            self.wf(),
        ensures
            r == self@.baseline(),
    {
        let n = self.jsx_baseline_brace_depths.len();
        if n > 0 {
            self.jsx_baseline_brace_depths[n - 1]
        } else {
            0
        }
    }

    /// An operator or separator.
    fn read_operator(&mut self) -> (t: Token)
        requires
            old(self).wf(),
            is_operator_start(old(self)@.cursor.ch()),
        ensures
            final(self).wf(),
            (final(self)@, t@) == operator_token(old(self)@),
    {
        let ch = self.cursor.ch();
        let nx = self.cursor.peek();
        if ch == ':' {
            if nx == ':' {
                self.emit_after(2, TokenKind::DoubleColon, String::from_str("::"))
            } else {
                self.emit_before(TokenKind::Colon, String::from_str(":"))
            }
        } else if ch == '=' {
            if nx == '>' {
                self.emit_after(2, TokenKind::FatArrow, String::from_str("=>"))
            } else if nx == '=' {
                self.emit_after(2, TokenKind::Eq, String::from_str("=="))
            } else {
                self.emit_before(TokenKind::Assign, String::from_str("="))
            }
        } else if ch == ';' {
            self.emit_before(TokenKind::Semicolon, String::from_str(";"))
        } else if ch == '|' {
            if nx == '|' {
                self.emit_after(2, TokenKind::PipePipe, String::from_str("||"))
            } else {
                self.emit_before(TokenKind::Pipe, String::from_str("|"))
            }
        } else if ch == ',' {
            self.emit_before(TokenKind::Comma, String::from_str(","))
        } else if ch == '.' {
            if nx == '.' {
                let third = self.cursor.char_at(self.cursor.position() + 2);
                if third == '.' {
                    self.emit_after(3, TokenKind::DotDotDot, String::from_str("..."))
                } else if third == '=' {
                    self.emit_after(3, TokenKind::DotDotEq, String::from_str("..="))
                } else {
                    self.emit_after(2, TokenKind::DotDot, String::from_str(".."))
                }
            } else {
                self.emit_before(TokenKind::Dot, String::from_str("."))
            }
        } else if ch == '+' {
            self.emit_before(TokenKind::Plus, String::from_str("+"))
        } else if ch == '*' {
            self.emit_before(TokenKind::Star, String::from_str("*"))
        } else if ch == '%' {
            self.emit_before(TokenKind::Percent, String::from_str("%"))
        } else if ch == '&' {
            if nx == '&' {
                self.emit_after(2, TokenKind::AmpAmp, String::from_str("&&"))
            } else {
                self.emit_before(TokenKind::Ampersand, String::from_str("&"))
            }
        } else if ch == '?' {
            self.emit_before(TokenKind::Question, String::from_str("?"))
        } else if ch == '!' {
            if nx == '=' {
                self.emit_after(2, TokenKind::NotEq, String::from_str("!="))
            } else {
                self.emit_before(TokenKind::Bang, String::from_str("!"))
            }
        } else if ch == '(' {
            self.emit_before(TokenKind::LParen, String::from_str("("))
        } else {
            self.emit_before(TokenKind::RParen, String::from_str(")"))
        }
    }

    /// A brace, bracket, angle bracket, `/` or `-`.
    fn read_bracket(&mut self) -> (t: Token)
        requires
            old(self).wf(),
            old(self)@.brace_depth < usize::MAX,
            is_bracket_start(old(self)@.cursor.ch()),
        ensures
            final(self).wf(),
            (final(self)@, t@) == bracket_token(old(self)@),
    {
        let baseline = self.baseline();
        let ch = self.cursor.ch();
        let nx = self.cursor.peek();
        if ch == '{' {
            if self.jsx_mode {
                self.brace_depth = self.brace_depth + 1;
                let kind = if self.brace_depth - 1 == baseline {
                    TokenKind::JsxOpenBrace
                } else {
                    TokenKind::LBrace
                };
                self.emit_before(kind, String::from_str("{"))
            } else {
                self.emit_before(TokenKind::LBrace, String::from_str("{"))
            }
        } else if ch == '}' {
            if self.jsx_mode && self.brace_depth > 0 {
                let hole = self.brace_depth - 1 == baseline;
                let kind = if hole {
                    TokenKind::JsxCloseBrace
                } else {
                    TokenKind::RBrace
                };
                self.just_closed_jsx_expr = hole;
                self.brace_depth = self.brace_depth - 1;
                self.emit_before(kind, String::from_str("}"))
            } else {
                self.emit_before(TokenKind::RBrace, String::from_str("}"))
            }
        } else if ch == '[' {
            self.emit_before(TokenKind::LBracket, String::from_str("["))
        } else if ch == ']' {
            self.emit_before(TokenKind::RBracket, String::from_str("]"))
        } else if ch == '<' {
            if nx == '=' {
                self.emit_after(2, TokenKind::LtEq, String::from_str("<="))
            } else {
                self.jsx_in_tag = true;
                self.emit_before(TokenKind::LAngle, String::from_str("<"))
            }
        } else if ch == '>' {
            if nx == '=' {
                self.emit_after(2, TokenKind::GtEq, String::from_str(">="))
            } else {
                if self.brace_depth == baseline {
                    self.jsx_in_tag = false;
                }
                self.emit_before(TokenKind::RAngle, String::from_str(">"))
            }
        } else if ch == '/' {
            if nx == '>' && self.jsx_mode {
                self.jsx_in_tag = false;
                self.emit_after(2, TokenKind::JsxSelfClose, String::from_str("/>"))
            } else {
                self.emit_before(TokenKind::Slash, String::from_str("/"))
            }
        } else if nx == '>' {
            self.emit_after(2, TokenKind::Arrow, String::from_str("->"))
        } else {
            self.emit_before(TokenKind::Minus, String::from_str("-"))
        }
    }

    /// `@`, end of input, a string, a lifetime, a word, a number or an
    /// illegal character.
    fn read_literal(&mut self) -> (t: Token)
        requires
            old(self).wf(),
        ensures
            final(self).wf(),
            (final(self)@, t@) == literal_token(old(self)@),
    {
        let ch = self.cursor.ch();
        let nx = self.cursor.peek();
        if ch == '@' {
            self.emit_before(TokenKind::At, String::from_str("@"))
        } else if self.cursor.at_end() {
            self.emit_before(TokenKind::Eof, String::from_str(""))
        } else if ch == '"' {
            self.read_string()
        } else if ch == '\'' {
            if class_contains(CharClass::Alpha, nx) || nx == '_' {
                self.read_lifetime()
            } else {
                self.emit_before(TokenKind::Illegal('\''), String::from_str("'"))
            }
        } else if class_contains(CharClass::Alpha, ch) || ch == '_' {
            self.read_identifier()
        } else if class_contains(CharClass::Digit, ch) {
            self.read_number()
        } else {
            self.emit_before(TokenKind::Illegal(ch), char_string(ch))
        }
    }

    /// The next token of the host language.
    fn next_code_token(&mut self) -> (t: Token)
        requires
            old(self).wf(),
            old(self)@.brace_depth < usize::MAX,
        ensures
            final(self).wf(),
            (final(self)@, t@) == core_token(old(self)@),
    {
        self.skip_whitespace();
        let ch = self.cursor.ch();
        if ch == ':' || ch == '=' || ch == ';' || ch == '|' || ch == ',' || ch == '.' || ch == '+'
            || ch == '*' || ch == '%' || ch == '&' || ch == '?' || ch == '!' || ch == '('
            || ch == ')' {
            self.read_operator()
        } else if ch == '{' || ch == '}' || ch == '[' || ch == ']' || ch == '<' || ch == '>' || ch
            == '/' || ch == '-' {
            self.read_bracket()
        } else {
            self.read_literal()
        }
    }

    /// Whether the next token is a run of markup text.
    fn can_read_jsx_text(&self) -> (r: bool)
        requires
            self.wf(),
        ensures
            r == text_ready(self@),
    {
        let ch = self.cursor.ch();
        if !(self.jsx_mode && self.jsx_depth > 0) || self.brace_depth != self.baseline()
            || self.jsx_in_tag || self.in_closing_tag {
            return false;
        }
        if !self.just_closed_jsx_expr && (ch == ')' || ch == ']' || ch == ',' || ch == ';') {
            return false;
        }
        if class_contains(CharClass::Space, ch) {
            let e = self.cursor.run_end(self.cursor.position(), CharClass::Space);
            let stop = self.cursor.char_at(e);
            if e >= self.cursor.len() || stop == '}' || stop == ')' || stop == ']' || stop == '<' {
                return false;
            }
        }
        ch != '<' && ch != '{' && ch != '}' && !self.cursor.at_end()
    }

    /// Returns the next token. At the end of the input it returns an
    /// end-of-input token, again on every later call.
    pub fn next_token(&mut self) -> (t: Token)
        requires
            old(self).wf(),
            old(self)@.brace_depth < usize::MAX,
        ensures
            final(self).wf(),
            (final(self)@, t@) == lex(old(self)@),
            final(self)@.baselines.len() == final(self)@.jsx_depth,
            final(self)@.jsx_mode == old(self)@.jsx_mode,
            final(self)@.jsx_depth == old(self)@.jsx_depth,
            final(self)@.baselines == old(self)@.baselines,
            old(self)@.css_mode ==> (final(self)@.css_mode <==> final(self)@.css_depth > 0),
            !old(self)@.css_mode ==> !final(self)@.css_mode,
            final(self)@.brace_depth <= old(self)@.brace_depth + 1,
            old(self)@.brace_depth <= final(self)@.brace_depth + 1,
            old(self)@.brace_depth == 0 && t.kind == TokenKind::RBrace ==> final(self)@.brace_depth
                == 0,
    {
        proof {
            lemma_modes_after_token(self@);
            lemma_lex_keeps_well_formed(self@);
        }
        let text = self.can_read_jsx_text();
        self.just_closed_jsx_expr = false;
        if text {
            self.read_jsx_text()
        } else if self.css_mode {
            self.next_css_token()
        } else {
            self.next_code_token()
        }
    }

    /// A run of markup text, trimmed.
    fn read_jsx_text(&mut self) -> (t: Token)
        requires
            old(self).wf(),
        ensures
            final(self).wf(),
            (final(self)@, t@) == markup_text(old(self)@),
    {
        let start = self.cursor.position();
        let column = self.cursor.column();
        let e = self.cursor.run_end(start, CharClass::MarkupText);
        let (a, b) = trim_bounds(self.cursor.chars(), start, e);
        let text = self.cursor.text(a, b);
        self.advance_to(e);
        Token::new(TokenKind::JsxText(text.clone()), text, self.cursor.line(), column)
    }
}

/// The value of the digit run `cs[from .. to]`, or 0 where it does not fit
/// in `i64`.
fn integer_of(cs: &[char], from: usize, to: usize) -> (r: i64)
    requires
        from <= to <= cs@.len(),
        forall|k: int| from <= k < to ==> ascii_digit(#[trigger] cs@[k]),
    ensures
        r == integer_value(cs@.subrange(from as int, to as int)),
{
    let ghost lit = cs@.subrange(from as int, to as int);
    let mut v: i64 = 0;
    let mut i = from;
    while i < to
        invariant
            from <= i <= to <= cs@.len(),
            lit == cs@.subrange(from as int, to as int),
            forall|k: int| from <= k < to ==> ascii_digit(#[trigger] cs@[k]),
            v as int == digits_value(cs@.subrange(from as int, i as int)),
        decreases to - i,
    {
        let ghost next = cs@.subrange(from as int, i + 1);
        assert(next.drop_last() =~= cs@.subrange(from as int, i as int));
        assert(forall|k: int| 0 <= k < lit.len() ==> ascii_digit(#[trigger] lit[k])) by {
            assert forall|k: int| 0 <= k < lit.len() implies ascii_digit(#[trigger] lit[k]) by {
                assert(lit[k] == cs@[from + k]);
            }
        }
        assert(lit.subrange(0, i + 1 - from) =~= next);
        proof {
            lemma_digits_value_grows(lit, i + 1 - from);
        }
        let d = (cs[i] as u32 - '0' as u32) as i64;
        match v.checked_mul(10) {
            Some(m) => match m.checked_add(d) {
                Some(n) => {
                    v = n;
                },
                None => {
                    return 0;
                },
            },
            None => {
                return 0;
            },
        }
        i += 1;
    }
    assert(cs@.subrange(from as int, i as int) =~= lit);
    v
}

/// Appends what the escape `\c` stands for.
fn push_escape(out: &mut Vec<char>, c: char)
    ensures
        final(out)@ == old(out)@ + escaped(c),
{
    let ghost prev = out@;
    if c == 'n' {
        out.push('\n');
    } else if c == 't' {
        out.push('\t');
    } else if c == 'r' {
        out.push('\r');
    } else if c == '\\' {
        out.push('\\');
    } else if c == '"' {
        out.push('"');
    } else if c == '\'' {
        out.push('\'');
    } else if c == '0' {
        out.push('\0');
    } else {
        out.push('\\');
        out.push(c);
    }
    assert(out@ =~= prev + escaped(c));
}

/// In every state of a lexer built by `new` and changed only through its
/// methods (each of which keeps `wf`), the baseline stack has one entry per
/// open markup element, markup mode implies an open element, and style mode
/// is on exactly while its brace depth is above zero. Brace depths are
/// natural numbers: they never go below zero.
pub proof fn lemma_lexer_invariants(l: &Lexer)
    requires
        l.wf(),
    ensures
        l@.baselines.len() == l@.jsx_depth,
        l@.jsx_mode ==> l@.jsx_depth > 0,
        l@.css_mode <==> l@.css_depth > 0,
        l@.brace_depth >= 0,
        l@.well_formed(),
{
}

} // verus!
