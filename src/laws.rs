//! Properties of the lexer that span calls or hold of every state.
use vstd::prelude::*;

use crate::cursor::lemma_advance_keeps_bounds;
use crate::rules::{
    bracket_token, core_token, is_bracket_start, is_operator_start, lemma_string_body_bounds, lex,
    literal_token, number_token, operator_token, skip_trivia, style_token, text_ready, trivia_end,
    LexState, Trivia,
};
use crate::text::{trim_end, trim_start, trimmed, whitespace};
use crate::token::{KindModel, TokenKind};

verus! {

/// At the end of the input the lexer returns the end-of-input token, stays
/// at the end, and from then on every call returns that same token and
/// leaves the state unchanged.
pub proof fn lemma_end_of_input_repeats(s: LexState)
    requires
        s.well_formed(),
        s.cursor.at_end(),
    ensures
        lex(s).1.kind == KindModel::Plain(TokenKind::Eof),
        lex(s).0.cursor.at_end(),
        lex(lex(s).0) == lex(s),
{
    let input = s.cursor.input;
    let end = s.cursor.pos;
    assert(trivia_end(input, end, Trivia::Code) == end);
}

/// Reading a token never changes markup mode, the number of open elements
/// or their baselines: only the mode-transition methods do. Style mode,
/// once on, turns itself off exactly when its brace depth returns to zero;
/// outside style mode a token never turns it on. The shared brace depth moves
/// by at most one, and a closing brace read at depth 0 leaves it at 0.
#[verifier::rlimit(100)]
pub proof fn lemma_modes_after_token(s: LexState)
    requires
        s.well_formed(),
    ensures
        lex(s).0.jsx_mode == s.jsx_mode,
        lex(s).0.jsx_depth == s.jsx_depth,
        lex(s).0.baselines == s.baselines,
        s.css_mode ==> (lex(s).0.css_mode <==> lex(s).0.css_depth > 0),
        !s.css_mode ==> !lex(s).0.css_mode && lex(s).0.css_depth == s.css_depth,
        lex(s).0.brace_depth <= s.brace_depth + 1,
        s.brace_depth <= lex(s).0.brace_depth + 1,
        s.brace_depth == 0 && lex(s).1.kind == KindModel::Plain(TokenKind::RBrace)
            ==> lex(s).0.brace_depth == 0,
{
}

proof fn lemma_host_keeps_well_formed(s: LexState)
    requires
        s.well_formed(),
    ensures
        core_token(s).0.well_formed(),
{
    broadcast use lemma_advance_keeps_bounds;

    let s1 = s.at(skip_trivia(s.cursor));
    assert(s1.well_formed());
    let c = s1.cursor;
    if is_operator_start(c.ch()) {
        assert(operator_token(s1).0.well_formed());
    } else if is_bracket_start(c.ch()) {
        assert(bracket_token(s1).0.well_formed());
    } else {
        if c.pos < c.input.len() {
            lemma_string_body_bounds(c.input, c.pos + 1);
        }
        assert(literal_token(s1).0.well_formed());
    }
}

#[verifier::rlimit(100)]
proof fn lemma_style_keeps_well_formed(s: LexState)
    requires
        s.well_formed(),
        s.css_mode,
    ensures
        style_token(s).0.well_formed(),
{
    broadcast use lemma_advance_keeps_bounds;

    let s1 = s.at(skip_trivia(s.cursor));
    assert(s1.well_formed());
    let c = s1.cursor;
    if c.pos < c.input.len() {
        lemma_string_body_bounds(c.input, c.pos + 1);
    }
    let n = number_token(s1);
    assert(n.0.well_formed());
}

/// Reading a token keeps every invariant of the lexer state: the cursor's
/// bounds, one baseline per open markup element, and style mode on exactly
/// while its brace depth is above zero.
pub proof fn lemma_lex_keeps_well_formed(s: LexState)
    requires
        s.well_formed(),
    ensures
        lex(s).0.well_formed(),
{
    broadcast use lemma_advance_keeps_bounds;

    let s0 = LexState { just_closed: false, ..s };
    if text_ready(s) {
    } else if s.css_mode {
        lemma_style_keeps_well_formed(s0);
    } else {
        lemma_host_keeps_well_formed(s0);
    }
}

proof fn lemma_trim_start_shape(s: Seq<char>) -> (i: int)
    ensures
        0 <= i <= s.len(),
        trim_start(s) == s.subrange(i, s.len() as int),
        forall|k: int| 0 <= k < i ==> whitespace(#[trigger] s[k]),
        i < s.len() ==> !whitespace(s[i]),
    decreases s.len(),
{
    if s.len() > 0 && whitespace(s[0]) {
        let j = lemma_trim_start_shape(s.drop_first());
        assert(s.drop_first().subrange(j, s.len() - 1) =~= s.subrange(j + 1, s.len() as int));
        assert forall|k: int| 0 <= k < j + 1 implies whitespace(#[trigger] s[k]) by {
            if k > 0 {
                assert(s[k] == s.drop_first()[k - 1]);
            }
        }
        j + 1
    } else {
        assert(s.subrange(0, s.len() as int) =~= s);
        0
    }
}

proof fn lemma_trim_end_shape(s: Seq<char>) -> (j: int)
    ensures
        0 <= j <= s.len(),
        trim_end(s) == s.subrange(0, j),
        forall|k: int| j <= k < s.len() ==> whitespace(#[trigger] s[k]),
        j > 0 ==> !whitespace(s[j - 1]),
    decreases s.len(),
{
    if s.len() > 0 && whitespace(s.last()) {
        let j = lemma_trim_end_shape(s.drop_last());
        assert(s.drop_last().subrange(0, j) =~= s.subrange(0, j));
        assert forall|k: int| j <= k < s.len() implies whitespace(#[trigger] s[k]) by {
            if k < s.len() - 1 {
                assert(s[k] == s.drop_last()[k]);
            }
        }
        j
    } else {
        assert(s.subrange(0, s.len() as int) =~= s);
        s.len() as int
    }
}

/// Trimming keeps one contiguous stretch of the text verbatim, drops only
/// white space before and after it, and leaves no white space at either end.
pub proof fn lemma_trimmed_keeps_interior(s: Seq<char>)
    ensures
        exists|i: int, j: int|
            0 <= i <= j <= s.len() && trimmed(s) == s.subrange(i, j) && (forall|k: int|
                0 <= k < i ==> whitespace(#[trigger] s[k])) && (forall|k: int|
                j <= k < s.len() ==> whitespace(#[trigger] s[k])),
        trimmed(s).len() > 0 ==> !whitespace(trimmed(s)[0]) && !whitespace(trimmed(s).last()),
{
    let i = lemma_trim_start_shape(s);
    let t = trim_start(s);
    let j = lemma_trim_end_shape(t);
    assert(t.subrange(0, j) =~= s.subrange(i, i + j));
    assert forall|k: int| i + j <= k < s.len() implies whitespace(#[trigger] s[k]) by {
        assert(s[k] == t[k - i]);
    }
    if j > 0 {
        assert(trimmed(s)[0] == t[0]);
        assert(t[0] == s[i]);
    }
    assert(exists|a: int, b: int|
        0 <= a <= b <= s.len() && trimmed(s) == s.subrange(a, b) && (forall|k: int|
            0 <= k < a ==> whitespace(#[trigger] s[k])) && (forall|k: int|
            b <= k < s.len() ==> whitespace(#[trigger] s[k]))) by {
        assert(0 <= i <= i + j <= s.len());
    }
}

} // verus!
