//! The parser's cursor: a place in the input, with the line, the column and
//! the indentation of the current line kept up to date as it moves.

use vstd::prelude::*;
use crate::ast::Attempting;
use crate::region::{Position, Region};

verus! {

/// Whether a parser consumed any input. After `NoProgress` the caller may
/// try something else at the same place; after `MadeProgress` a failure is
/// final.
#[derive(Clone, Copy, Debug, PartialEq, Eq, Structural)]
pub enum Progress {
    NoProgress,
    MadeProgress,
}

impl Progress {
    /// Progress was made if either part made any.
    pub fn or(self, other: Progress) -> (p: Progress)
        ensures
            p is MadeProgress <==> self is MadeProgress || other is MadeProgress,
    {
        match self {
            Progress::MadeProgress => Progress::MadeProgress,
            Progress::NoProgress => other,
        }
    }

    pub fn from_offsets(before: usize, after: usize) -> (p: Progress)
        ensures
            p is NoProgress <==> before == after,
    {
        if before == after {
            Progress::NoProgress
        } else {
            Progress::MadeProgress
        }
    }
}

/// What can be wrong with the input text itself.
#[derive(Clone, Copy, Debug, PartialEq, Eq, Structural)]
pub enum BadInputError {
    HasTab,
    LineTooLong,
    TooManyLines,
}

pub const NEWLINE: u8 = 10;

pub const SPACE: u8 = 32;

/// The number of line breaks among the first `off` bytes.
pub open spec fn line_at(input: Seq<u8>, off: int) -> int
    decreases off,
{
    if off <= 0 {
        0
    } else {
        line_at(input, off - 1) + if input[off - 1] == NEWLINE {
            1int
        } else {
            0int
        }
    }
}

/// The number of bytes between the start of the line that offset `off` is
/// on and `off`.
pub open spec fn column_at(input: Seq<u8>, off: int) -> int
    decreases off,
{
    if off <= 0 {
        0
    } else if input[off - 1] == NEWLINE {
        0
    } else {
        column_at(input, off - 1) + 1
    }
}

/// Whether only spaces lie between the start of the line and `off`.
pub open spec fn indenting_at(input: Seq<u8>, off: int) -> bool
    decreases off,
{
    if off <= 0 {
        true
    } else if input[off - 1] == NEWLINE {
        true
    } else {
        input[off - 1] == SPACE && indenting_at(input, off - 1)
    }
}

/// The number of spaces that the line begins with, counted up to `off`.
pub open spec fn indent_at(input: Seq<u8>, off: int) -> int
    decreases off,
{
    if off <= 0 {
        0
    } else if input[off - 1] == NEWLINE {
        0
    } else if input[off - 1] == SPACE && indenting_at(input, off - 1) {
        indent_at(input, off - 1) + 1
    } else {
        indent_at(input, off - 1)
    }
}

/// No line is so long, and the lines are not so many, that a position in
/// the text would not fit a `Position`; one column is kept in reserve so
/// that the column after any position can be named too.
pub open spec fn fits(input: Seq<u8>) -> bool {
    &&& forall|off: int| 0 <= off <= input.len() ==> #[trigger] column_at(input, off) < u16::MAX
    &&& line_at(input, input.len() as int) <= u32::MAX
}

/// Positions grow with offsets: a later offset is on a later line, or on
/// the same line as many columns further as it is bytes further.
pub proof fn lemma_position_grows(input: Seq<u8>, a: int, b: int)
    requires
        0 <= a <= b <= input.len(),
    ensures
        line_at(input, a) < line_at(input, b) || (line_at(input, a) == line_at(input, b)
            && column_at(input, b) == column_at(input, a) + (b - a)),
        0 <= indent_at(input, b) <= column_at(input, b),
        0 <= line_at(input, a),
    decreases b,
{
    if b > 0 {
        lemma_position_grows(input, 0, b - 1);
    }
    if a < b {
        lemma_position_grows(input, a, b - 1);
    } else if a > 0 {
        lemma_position_grows(input, a - 1, a - 1);
    }
}

/// A stretch of input without a line break stays on its line.
pub proof fn lemma_same_line(input: Seq<u8>, a: int, b: int)
    requires
        0 <= a <= b <= input.len(),
        forall|k: int| a <= k < b ==> input[k] != NEWLINE,
    ensures
        line_at(input, b) == line_at(input, a),
        column_at(input, b) == column_at(input, a) + (b - a),
    decreases b - a,
{
    if a < b {
        lemma_same_line(input, a, b - 1);
    }
}

/// The parser's cursor into `input`.
#[derive(Clone, Copy, Debug, PartialEq)]
pub struct State<'a> {
    /// The whole text being parsed.
    pub input: &'a [u8],
    /// How many bytes have been consumed; what remains starts here.
    pub offset: usize,
    /// The zero-based line of the next byte.
    pub line: u32,
    /// The zero-based column of the next byte.
    pub column: u16,
    /// The number of spaces that the current line begins with, as far as
    /// they have been consumed.
    pub indent_col: u16,
    /// Whether nothing but spaces has been consumed on the current line.
    pub is_indenting: bool,
    /// What the parser was started for.
    pub attempting: Attempting,
}

impl<'a> State<'a> {
    /// The cursor is inside its text, the text fits, and line, column and
    /// indentation are those of the offset.
    pub open spec fn wf(self) -> bool {
        &&& self.offset <= self.input@.len()
        &&& fits(self.input@)
        &&& self.line == line_at(self.input@, self.offset as int)
        &&& self.column == column_at(self.input@, self.offset as int)
        &&& self.indent_col == indent_at(self.input@, self.offset as int)
        &&& self.is_indenting == indenting_at(self.input@, self.offset as int)
        &&& self.indent_col <= self.column
    }

    pub open spec fn position(self) -> Position {
        Position { line: self.line, column: self.column }
    }

    /// `self` is a cursor into the same text as `start`, at the same place
    /// or further on.
    pub open spec fn extends(self, start: State<'a>) -> bool {
        &&& self.wf()
        &&& self.input == start.input
        &&& self.attempting == start.attempting
        &&& start.offset <= self.offset
        &&& start.position().le(self.position())
    }

    /// The cursor into the same text that stands at the offset `off`.
    #[verifier::opaque]
    pub open spec fn at(self, off: int) -> State<'a> {
        State {
            input: self.input,
            offset: off as usize,
            line: line_at(self.input@, off) as u32,
            column: column_at(self.input@, off) as u16,
            indent_col: indent_at(self.input@, off) as u16,
            is_indenting: indenting_at(self.input@, off),
            attempting: self.attempting,
        }
    }

    /// The cursor `n` bytes further on.
    pub open spec fn after(self, n: int) -> State<'a> {
        self.at(self.offset + n)
    }

    /// `next` is a cursor into the same text, strictly further on and
    /// still inside the text.
    pub open spec fn leads_to(self, next: State<'a>) -> bool {
        next.input == self.input && self.offset < next.offset <= self.input@.len()
    }

    /// `next` is a cursor into the same text, at the same place or further
    /// on, and still inside the text.
    pub open spec fn reaches(self, next: State<'a>) -> bool {
        next.input == self.input && self.offset <= next.offset <= self.input@.len()
    }

    /// The region from where `start` stands to where `self` stands.
    pub open spec fn span_from(self, start: State<'a>) -> Region {
        Region::between(start.position(), self.position())
    }

    /// The next byte is `b`.
    pub open spec fn at_byte(self, b: u8) -> bool {
        self.offset < self.input@.len() && self.input@[self.offset as int] == b
    }

    /// What remains starts with `word`.
    pub open spec fn at_word(self, word: Seq<u8>) -> bool {
        self.offset + word.len() <= self.input@.len() && self.input@.subrange(
            self.offset as int,
            self.offset + word.len(),
        ) == word
    }

    /// A cursor at the start of `input`. Fails if a line of the input has
    /// `u16::MAX` bytes or more (`LineTooLong`), or else if it has more than
    /// `u32::MAX` line breaks (`TooManyLines`).
    pub fn new(input: &'a [u8], attempting: Attempting) -> (r: Result<State<'a>, BadInputError>)
        ensures
            match r {
                Ok(s) => fits(input@) && s.wf() && s.input == input && s.offset == 0
                    && s.attempting == attempting,
                Err(BadInputError::LineTooLong) => exists|off: int|
                    0 <= off <= input@.len() && column_at(input@, off) >= u16::MAX,
                Err(BadInputError::TooManyLines) => line_at(input@, input@.len() as int) > u32::MAX
                    && forall|off: int|
                    0 <= off <= input@.len() ==> #[trigger] column_at(input@, off) < u16::MAX,
                Err(BadInputError::HasTab) => false,
            },
    {
        let mut off: usize = 0;
        let mut lines: u64 = 0;
        let mut column: u16 = 0;
        while off < input.len()
            invariant
                off <= input@.len(),
                lines == line_at(input@, off as int),
                lines <= off,
                column == column_at(input@, off as int),
                forall|k: int| 0 <= k <= off ==> #[trigger] column_at(input@, k) < u16::MAX,
            decreases input@.len() - off,
        {
            if input[off] == NEWLINE {
                lines = lines + 1;
                column = 0;
            } else {
                if column >= u16::MAX - 1 {
                    assert(column_at(input@, off + 1) >= u16::MAX);
                    return Err(BadInputError::LineTooLong);
                }
                column = column + 1;
            }
            off = off + 1;
        }
        if lines > u32::MAX as u64 {
            return Err(BadInputError::TooManyLines);
        }
        Ok(
            State {
                input,
                offset: 0,
                line: 0,
                column: 0,
                indent_col: 0,
                is_indenting: true,
                attempting,
            },
        )
    }

    pub fn pos(&self) -> (p: Position)
        ensures
            p == self.position(),
    {
        Position { line: self.line, column: self.column }
    }

    /// Whether all the input has been consumed.
    pub fn at_end(&self) -> (b: bool)
        requires
            self.wf(),
        ensures
            b == (self.offset == self.input@.len()),
    {
        self.offset >= self.input.len()
    }

    /// The next byte, if there is one.
    pub fn peek(&self) -> (b: Option<u8>)
        requires
            self.wf(),
        ensures
            b == if self.offset < self.input@.len() {
                Some(self.input@[self.offset as int])
            } else {
                None
            },
    {
        if self.offset < self.input.len() {
            Some(self.input[self.offset])
        } else {
            None
        }
    }

    /// The byte `k` places after the next one, if there is one.
    pub fn peek_at(&self, k: usize) -> (b: Option<u8>)
        requires
            self.wf(),
        ensures
            b == if self.offset + k < self.input@.len() {
                Some(self.input@[self.offset + k])
            } else {
                None
            },
    {
        if k < self.input.len() - self.offset {
            Some(self.input[self.offset + k])
        } else {
            None
        }
    }

    /// The cursor one byte further on.
    pub fn advance(self) -> (s: State<'a>)
        requires
            self.wf(),
            self.offset < self.input@.len(),
        ensures
            s.extends(self),
            s.offset == self.offset + 1,
            s == self.after(1),
    {
        let b: u8 = self.input[self.offset];
        proof {
            let next = self.offset as int + 1;
            lemma_position_grows(self.input@, next, self.input@.len() as int);
            lemma_position_grows(self.input@, 0, next);
            assert(column_at(self.input@, next) < u16::MAX);
        }
        let s = if b == NEWLINE {
            State {
                input: self.input,
                offset: self.offset + 1,
                line: self.line + 1,
                column: 0,
                indent_col: 0,
                is_indenting: true,
                attempting: self.attempting,
            }
        } else {
            let still: bool = self.is_indenting && b == SPACE;
            State {
                input: self.input,
                offset: self.offset + 1,
                line: self.line,
                column: self.column + 1,
                indent_col: if still {
                    self.indent_col + 1
                } else {
                    self.indent_col
                },
                is_indenting: still,
                attempting: self.attempting,
            }
        };
        proof {
            reveal(State::at);
        }
        s
    }

    /// The cursor `n` bytes further on.
    pub fn advance_by(self, n: usize) -> (s: State<'a>)
        requires
            self.wf(),
            self.offset + n <= self.input@.len(),
        ensures
            s.extends(self),
            s.offset == self.offset + n,
            s == self.after(n as int),
    {
        let mut s = self;
        let mut i: usize = 0;
        while i < n
            invariant
                i <= n,
                self.offset + n <= self.input@.len(),
                s.extends(self),
                s.offset == self.offset + i,
            decreases n - i,
        {
            s = s.advance();
            i = i + 1;
        }
        proof {
            lemma_state_at(self, s);
        }
        s
    }

    /// The cursor after `byte`, if that is the next byte.
    pub open spec fn spec_word1(self, byte: u8) -> Option<State<'a>> {
        if self.at_byte(byte) {
            Some(self.after(1))
        } else {
            None
        }
    }

    /// The cursor after `word`, if what remains starts with it.
    pub open spec fn spec_word(self, word: Seq<u8>) -> Option<State<'a>> {
        if self.at_word(word) {
            Some(self.after(word.len() as int))
        } else {
            None
        }
    }

    /// The cursor after the reserved word `word`, if it stands here.
    pub open spec fn spec_keyword(self, word: Seq<u8>) -> Option<State<'a>> {
        if at_keyword(self, word) {
            Some(self.after(word.len() as int))
        } else {
            None
        }
    }

    /// The cursor after `byte`, if that is the next byte.
    pub fn word1(self, byte: u8) -> (r: Option<State<'a>>)
        requires
            self.wf(),
        ensures
            match r {
                Some(s) => self.at_byte(byte) && s.extends(self) && s.offset == self.offset + 1,
                None => !self.at_byte(byte),
            },
            r == self.spec_word1(byte),
    {
        if self.offset < self.input.len() && self.input[self.offset] == byte {
            Some(self.advance())
        } else {
            None
        }
    }

    /// The cursor after the two bytes `first` and `second`, if they come
    /// next.
    pub fn word2(self, first: u8, second: u8) -> (r: Option<State<'a>>)
        requires
            self.wf(),
        ensures
            match r {
                Some(s) => self.at_word(seq![first, second]) && s.extends(self) && s.offset
                    == self.offset + 2,
                None => !self.at_word(seq![first, second]),
            },
            r == self.spec_word(seq![first, second]),
    {
        if self.input.len() - self.offset >= 2 && self.input[self.offset] == first
            && self.input[self.offset + 1] == second {
            assert(self.input@.subrange(self.offset as int, self.offset + 2) =~= seq![
                first,
                second,
            ]);
            Some(self.advance_by(2))
        } else {
            proof {
                if self.at_word(seq![first, second]) {
                    let w = self.input@.subrange(self.offset as int, self.offset + 2);
                    assert(w[0] == first && w[1] == second);
                }
            }
            None
        }
    }

    /// Whether what remains starts with `word`.
    pub fn starts_with(&self, word: &[u8]) -> (b: bool)
        requires
            self.wf(),
        ensures
            b == self.at_word(word@),
    {
        let total: usize = self.input.len();
        if word.len() > total - self.offset {
            return false;
        }
        let mut i: usize = 0;
        while i < word.len()
            invariant
                i <= word@.len(),
                total == self.input@.len(),
                self.offset + word@.len() <= self.input@.len(),
                forall|k: int| 0 <= k < i ==> self.input@[self.offset + k] == word@[k],
            decreases word@.len() - i,
        {
            if self.input[self.offset + i] != word[i] {
                proof {
                    if self.at_word(word@) {
                        let w = self.input@.subrange(
                            self.offset as int,
                            self.offset + word@.len(),
                        );
                        assert(w[i as int] == word@[i as int]);
                    }
                }
                return false;
            }
            i = i + 1;
        }
        assert(self.input@.subrange(self.offset as int, self.offset + word@.len()) =~= word@);
        true
    }

    /// The cursor after `word`, if what remains starts with it.
    pub fn ascii_string(self, word: &[u8]) -> (r: Option<State<'a>>)
        requires
            self.wf(),
        ensures
            match r {
                Some(s) => self.at_word(word@) && s.extends(self) && s.offset == self.offset
                    + word@.len(),
                None => !self.at_word(word@),
            },
            r == self.spec_word(word@),
    {
        if self.starts_with(word) {
            Some(self.advance_by(word.len()))
        } else {
            None
        }
    }

    /// The text from the offset `from` to the offset `to`.
    pub open spec fn text(self, from: int, to: int) -> &'a [u8] {
        the_slice(self.input@.subrange(from, to))
    }

    /// The text between two cursors into the same input.
    pub fn text_since(&self, start: &State<'a>) -> (text: &'a [u8])
        requires
            self.extends(*start),
        ensures
            text@ == self.input@.subrange(start.offset as int, self.offset as int),
            text == self.text(start.offset as int, self.offset as int),
    {
        let input: &'a [u8] = self.input;
        let text: &'a [u8] = &input[start.offset..self.offset];
        proof {
            lemma_the_slice(text);
        }
        text
    }

    /// The region between two cursors into the same input.
    pub fn region_since(&self, start: &State<'a>) -> (r: Region)
        requires
            self.extends(*start),
        ensures
            r == self.span_from(*start),
            r.valid(),
    {
        Region {
            start_line: start.line,
            end_line: self.line,
            start_col: start.column,
            end_col: self.column,
        }
    }
}

/// The slice that holds `view`. Two slices that hold the same are the
/// same slice.
pub open spec fn the_slice<'a, T>(view: Seq<T>) -> &'a [T] {
    choose|s: &'a [T]| s@ == view
}

/// A slice is the slice that holds what it holds.
pub proof fn lemma_the_slice<'a, T>(s: &'a [T])
    ensures
        the_slice::<T>(s@) == s,
{
    let chosen = the_slice::<T>(s@);
    assert(chosen@ == s@);
    assert(chosen =~= s);
}

/// A cursor that is in order is the cursor at its offset.
pub proof fn lemma_state_at(base: State, s: State)
    requires
        s.extends(base),
    ensures
        s == base.at(s.offset as int),
{
    reveal(State::at);
}

/// Two cursors into the same text at the same offset are the same cursor.
pub proof fn lemma_same_offset(a: State, b: State)
    requires
        a.extends(b),
        b.wf(),
        a.offset == b.offset,
    ensures
        a == b,
{
}

/// A cursor that is further on in the text stands at a later position, and
/// the other way round.
pub proof fn lemma_later_is_further(a: State, b: State)
    requires
        a.extends(b),
        b.wf(),
    ensures
        a.offset > b.offset <==> b.position().lt(a.position()),
{
    lemma_position_grows(a.input@, b.offset as int, a.offset as int);
}

/// The reserved word `word` stands at the cursor: what remains starts
/// with it, and then the input ends or a space, a line break or a comment
/// follows.
pub open spec fn at_keyword(state: State, word: Seq<u8>) -> bool {
    state.at_word(word) && (state.offset + word.len() == state.input@.len() || {
        let next = state.input@[state.offset + word.len()];
        next == SPACE || next == NEWLINE || next == 35
    })
}

impl<'a> State<'a> {
    /// The cursor after the reserved word `word`, if it stands here. A
    /// longer word that starts with it, as `iffy` with `if`, is no
    /// reserved word.
    pub fn keyword(self, word: &[u8]) -> (r: Option<State<'a>>)
        requires
            self.wf(),
        ensures
            r is Some <==> at_keyword(self, word@),
            r matches Some(s) ==> s.extends(self) && s.offset == self.offset + word@.len(),
            r == self.spec_keyword(word@),
    {
        if !self.starts_with(word) {
            return None;
        }
        match self.peek_at(word.len()) {
            Some(next) => {
                if next == SPACE || next == NEWLINE || next == 35 {
                    Some(self.advance_by(word.len()))
                } else {
                    None
                }
            },
            None => Some(self.advance_by(word.len())),
        }
    }
}

/// The bytes of `if`.
pub open spec fn word_if() -> Seq<u8> {
    seq![105u8, 102u8]
}

/// The bytes of the word that stands between a condition and its branch.
pub open spec fn word_then() -> Seq<u8> {
    seq![116u8, 104u8, 101u8, 110u8]
}

/// The bytes of `else`.
pub open spec fn word_else() -> Seq<u8> {
    seq![101u8, 108u8, 115u8, 101u8]
}

/// The bytes of `when`.
pub open spec fn word_when() -> Seq<u8> {
    seq![119u8, 104u8, 101u8, 110u8]
}

/// The bytes of `is`.
pub open spec fn word_is() -> Seq<u8> {
    seq![105u8, 115u8]
}

impl<'a> State<'a> {
    pub fn keyword_if(self) -> (r: Option<State<'a>>)
        requires
            self.wf(),
        ensures
            r is Some <==> at_keyword(self, word_if()),
            r matches Some(s) ==> s.extends(self) && s.offset == self.offset + 2,
            r == self.spec_keyword(word_if()),
    {
        let word: [u8; 2] = [105, 102];
        assert(word@ =~= word_if());
        self.keyword(word.as_slice())
    }

    pub fn keyword_then(self) -> (r: Option<State<'a>>)
        requires
            self.wf(),
        ensures
            r is Some <==> at_keyword(self, word_then()),
            r matches Some(s) ==> s.extends(self) && s.offset == self.offset + 4,
            r == self.spec_keyword(word_then()),
    {
        let word: [u8; 4] = [116, 104, 101, 110];
        assert(word@ =~= word_then());
        self.keyword(word.as_slice())
    }

    pub fn keyword_else(self) -> (r: Option<State<'a>>)
        requires
            self.wf(),
        ensures
            r is Some <==> at_keyword(self, word_else()),
            r matches Some(s) ==> s.extends(self) && s.offset == self.offset + 4,
            r == self.spec_keyword(word_else()),
    {
        let word: [u8; 4] = [101, 108, 115, 101];
        assert(word@ =~= word_else());
        self.keyword(word.as_slice())
    }

    pub fn keyword_when(self) -> (r: Option<State<'a>>)
        requires
            self.wf(),
        ensures
            r is Some <==> at_keyword(self, word_when()),
            r matches Some(s) ==> s.extends(self) && s.offset == self.offset + 4,
            r == self.spec_keyword(word_when()),
    {
        let word: [u8; 4] = [119, 104, 101, 110];
        assert(word@ =~= word_when());
        self.keyword(word.as_slice())
    }

    pub fn keyword_is(self) -> (r: Option<State<'a>>)
        requires
            self.wf(),
        ensures
            r is Some <==> at_keyword(self, word_is()),
            r matches Some(s) ==> s.extends(self) && s.offset == self.offset + 2,
            r == self.spec_keyword(word_is()),
    {
        let word: [u8; 2] = [105, 115];
        assert(word@ =~= word_is());
        self.keyword(word.as_slice())
    }
}

} // verus!
