use vstd::prelude::*;

use crate::text::{class_contains, in_class, string_of, CharClass};

verus! {

/// The character at index `i`; past the end, the placeholder `'\0'`, which
/// no rule takes for the end: the end is tested by position.
pub open spec fn char_at(input: Seq<char>, i: int) -> char {
    if 0 <= i < input.len() {
        input[i]
    } else {
        '\0'
    }
}

/// The end of the run of class `k` that starts at `i`.
pub open spec fn run_end(input: Seq<char>, i: int, k: CharClass) -> int
    decreases input.len() - i,
{
    if 0 <= i < input.len() && in_class(k, input[i]) {
        run_end(input, i + 1, k)
    } else {
        i
    }
}

/// The abstract state of a cursor over a character buffer: the index of the
/// current character, and the line and column the lexer reports there.
pub struct CursorView {
    pub input: Seq<char>,
    pub pos: int,
    pub line: int,
    pub column: int,
}

impl CursorView {
    /// A cursor placed on the first character.
    pub open spec fn start(input: Seq<char>) -> CursorView {
        CursorView {
            input,
            pos: 0,
            line: if char_at(input, 0) == '\n' {
                2
            } else {
                1
            },
            column: 1,
        }
    }

    /// Bounds that every cursor keeps.
    pub open spec fn wf(self) -> bool {
        &&& 0 <= self.pos <= self.input.len() <= isize::MAX
        &&& 1 <= self.line <= self.pos + 2
        &&& 1 <= self.column <= self.pos + 1
    }

    /// The current character (`'\0'` at the end).
    pub open spec fn ch(self) -> char {
        char_at(self.input, self.pos)
    }

    /// The character after the current one.
    pub open spec fn next_ch(self) -> char {
        char_at(self.input, self.pos + 1)
    }

    pub open spec fn at_end(self) -> bool {
        self.pos >= self.input.len()
    }

    /// One character further: a newline moves to column 1 of the next line;
    /// at the end nothing moves.
    pub open spec fn step(self) -> CursorView {
        if self.pos < self.input.len() {
            let p = self.pos + 1;
            if char_at(self.input, p) == '\n' {
                CursorView { pos: p, line: self.line + 1, column: 1, ..self }
            } else {
                CursorView { pos: p, column: self.column + 1, ..self }
            }
        } else {
            self
        }
    }

    /// Stepping until index `target` is reached.
    pub open spec fn advance_to(self, target: int) -> CursorView
        decreases target - self.pos,
    {
        if self.pos < target && self.pos < self.input.len() {
            self.step().advance_to(target)
        } else {
            self
        }
    }

    /// Past the run of class `k` that starts at the current character.
    pub open spec fn skip(self, k: CharClass) -> CursorView {
        self.advance_to(run_end(self.input, self.pos, k))
    }
}

pub proof fn lemma_run_end_bounds(input: Seq<char>, i: int, k: CharClass)
    requires
        0 <= i <= input.len(),
    ensures
        i <= run_end(input, i, k) <= input.len(),
        !in_class(k, char_at(input, run_end(input, i, k))) || run_end(input, i, k)
            == input.len(),
        forall|j: int| i <= j < run_end(input, i, k) ==> in_class(k, #[trigger] input[j]),
    decreases input.len() - i,
{
    if 0 <= i < input.len() && in_class(k, input[i]) {
        lemma_run_end_bounds(input, i + 1, k);
    }
}

pub proof fn lemma_advance(c: CursorView, target: int)
    requires
        c.wf(),
        c.pos <= target <= c.input.len(),
    ensures
        c.advance_to(target).wf(),
        c.advance_to(target).pos == target,
        c.advance_to(target).input == c.input,
    decreases target - c.pos,
{
    if c.pos < target {
        lemma_advance(c.step(), target);
    }
}

/// Stepping keeps a cursor's bounds and never moves it back; it stops at
/// the target when the target lies between the cursor and the end.
pub broadcast proof fn lemma_advance_keeps_bounds(c: CursorView, target: int)
    requires
        c.wf(),
    ensures
        (#[trigger] c.advance_to(target)).wf(),
        c.advance_to(target).input == c.input,
        c.advance_to(target).pos >= c.pos,
        c.pos <= target <= c.input.len() ==> c.advance_to(target).pos == target,
    decreases target - c.pos,
{
    if c.pos < target && c.pos < c.input.len() {
        lemma_advance_keeps_bounds(c.step(), target);
    }
}

pub proof fn lemma_advance_step(c: CursorView, m: int)
    requires
        c.wf(),
        c.pos <= m < c.input.len(),
    ensures
        c.advance_to(m).step() == c.advance_to(m + 1),
    decreases m - c.pos,
{
    if c.pos < m {
        lemma_advance_step(c.step(), m);
    } else {
        assert(c.step().advance_to(m + 1) == c.step());
    }
}

pub proof fn lemma_advance_compose(c: CursorView, m: int, t: int)
    requires
        c.wf(),
        c.pos <= m <= t <= c.input.len(),
    ensures
        c.advance_to(m).advance_to(t) == c.advance_to(t),
    decreases m - c.pos,
{
    if c.pos < m {
        lemma_advance_compose(c.step(), m, t);
    }
}

pub proof fn lemma_step_is_advance(c: CursorView)
    requires
        c.wf(),
    ensures
        c.pos < c.input.len() ==> c.step() == c.advance_to(c.pos + 1),
        c.advance_to(c.pos) == c,
{
    if c.pos < c.input.len() {
        assert(c.step().advance_to(c.pos + 1) == c.step());
    }
}

pub proof fn lemma_step_after(c: CursorView, m: int)
    requires
        c.wf(),
        c.pos <= m <= c.input.len(),
    ensures
        c.advance_to(m).step() == c.advance_to(
            if m < c.input.len() {
                m + 1
            } else {
                m
            },
        ),
{
    lemma_advance(c, m);
    if m < c.input.len() {
        lemma_advance_step(c, m);
    }
}

/// A cursor over a buffer of characters.
pub struct Cursor {
    input: Vec<char>,
    position: usize,
    ch: char,
    line: usize,
    column: usize,
}

impl View for Cursor {
    type V = CursorView;

    closed spec fn view(&self) -> CursorView {
        CursorView {
            input: self.input@,
            pos: self.position as int,
            line: self.line as int,
            column: self.column as int,
        }
    }
}

impl Cursor {
    pub closed spec fn wf(&self) -> bool {
        &&& self@.wf()
        &&& self.ch == self@.ch()
    }

    pub fn new(input: Vec<char>) -> (r: Cursor)
        requires
            input@.len() <= isize::MAX,
        ensures
            r.wf(),
            r@ == CursorView::start(input@),
    {
        let ch = if input.len() > 0 {
            input[0]
        } else {
            '\0'
        };
        let line: usize = if ch == '\n' {
            2
        } else {
            1
        };
        Cursor { input, position: 0, ch, line, column: 1 }
    }

    pub fn ch(&self) -> (r: char)
        requires
            self.wf(),
        ensures
            r == self@.ch(),
    {
        self.ch
    }

    pub fn peek(&self) -> (r: char)
        requires
            self.wf(),
        ensures
            r == self@.next_ch(),
    {
        self.char_at(self.position + 1)
    }

    /// The character at index `i`, or `'\0'` past the end.
    pub fn char_at(&self, i: usize) -> (r: char)
        requires
            self.wf(),
        ensures
            r == char_at(self@.input, i as int),
    {
        if i < self.input.len() {
            self.input[i]
        } else {
            '\0'
        }
    }

    /// Whether the cursor has passed the last character.
    pub fn at_end(&self) -> (r: bool)
        requires
            self.wf(),
        ensures
            r == self@.at_end(),
    {
        self.position >= self.input.len()
    }

    pub fn position(&self) -> (r: usize)
        requires
            self.wf(),
        ensures
            r == self@.pos,
    {
        self.position
    }

    pub fn line(&self) -> (r: usize)
        requires
            self.wf(),
        ensures
            r == self@.line,
    {
        self.line
    }

    pub fn column(&self) -> (r: usize)
        requires
            self.wf(),
        ensures
            r == self@.column,
    {
        self.column
    }

    pub fn len(&self) -> (r: usize)
        requires
            self.wf(),
        ensures
            r == self@.input.len(),
    {
        self.input.len()
    }

    pub fn read_char(&mut self)
        requires
            old(self).wf(),
        ensures
            final(self).wf(),
            final(self)@ == old(self)@.step(),
    {
        if self.position < self.input.len() {
            self.position = self.position + 1;
            self.ch = if self.position < self.input.len() {
                self.input[self.position]
            } else {
                '\0'
            };
            if self.ch == '\n' {
                self.line = self.line + 1;
                self.column = 1;
            } else {
                self.column = self.column + 1;
            }
        }
    }

    /// Steps until index `target`.
    pub fn advance_to(&mut self, target: usize)
        requires
            old(self).wf(),
            old(self)@.pos <= target <= old(self)@.input.len(),
        ensures
            final(self).wf(),
            final(self)@ == old(self)@.advance_to(target as int),
    {
        let ghost start = self@;
        while self.position < target
            invariant
                self.wf(),
                start.wf(),
                start.pos <= self@.pos <= target <= start.input.len(),
                self@ == start.advance_to(self@.pos),
            decreases target - self.position,
        {
            proof {
                lemma_advance_step(start, self@.pos);
            }
            self.read_char();
            proof {
                lemma_advance(start, self@.pos);
            }
        }
    }

    /// The end of the run of class `k` that starts at index `from`.
    pub fn run_end(&self, from: usize, k: CharClass) -> (r: usize)
        requires
            self.wf(),
            from <= self@.input.len(),
        ensures
            r == run_end(self@.input, from as int, k),
            from <= r <= self@.input.len(),
    {
        let mut i = from;
        while i < self.input.len() && class_contains(k, self.input[i])
            invariant
                self.wf(),
                from <= i <= self@.input.len(),
                run_end(self@.input, i as int, k) == run_end(self@.input, from as int, k),
            decreases self@.input.len() - i,
        {
            i += 1;
        }
        i
    }

    /// The string made of the characters at `from .. to`.
    pub fn text(&self, from: usize, to: usize) -> (r: String)
        requires
            self.wf(),
            from <= to <= self@.input.len(),
        ensures
            r@ == self@.input.subrange(from as int, to as int),
    {
        string_of(self.input.as_slice(), from, to)
    }

    /// Whether the characters at `from .. to` spell `word`.
    pub fn spells(&self, from: usize, to: usize, word: &str) -> (r: bool)
        requires
            self.wf(),
            from <= to <= self@.input.len(),
        ensures
            r == (self@.input.subrange(from as int, to as int) == word@),
    {
        crate::text::spells(self.input.as_slice(), from, to, word)
    }

    pub fn chars(&self) -> (r: &[char])
        requires
            self.wf(),
        ensures
            r@ == self@.input,
    {
        self.input.as_slice()
    }
}

} // verus!
