//! White space: spaces, line breaks and comments, and the rule that a new
//! line may not begin to the left of a given column.

use vstd::prelude::*;
use crate::arena::{alloc_slice_in, Arena};
use crate::ast::CommentOrNewline;
use crate::errors::{moves_on, state_of, ParseResult, SpaceProblem};
use crate::state::{
    lemma_state_at, lemma_the_slice, line_at, the_slice, BadInputError, Progress, State, NEWLINE,
    SPACE,
};

verus! {

pub const TAB: u8 = 9;

pub const CARRIAGE_RETURN: u8 = 13;

pub const HASH: u8 = 35;

/// A line break or a comment, with its text as a sequence of bytes.
pub enum Blank {
    Newline,
    LineComment(Seq<u8>),
    DocComment(Seq<u8>),
}

pub open spec fn blank_of(item: CommentOrNewline) -> Blank {
    match item {
        CommentOrNewline::Newline => Blank::Newline,
        CommentOrNewline::LineComment(text) => Blank::LineComment(text@),
        CommentOrNewline::DocComment(text) => Blank::DocComment(text@),
    }
}

pub open spec fn blanks_of(items: Seq<CommentOrNewline>) -> Seq<Blank> {
    items.map_values(|item: CommentOrNewline| blank_of(item))
}

/// The comment whose text, after its first `#`, runs from `from` to `to`:
/// a doc comment if that text starts with a second `#`.
pub open spec fn comment_at(input: Seq<u8>, from: int, to: int) -> Blank {
    if from < to && input[from] == HASH {
        Blank::DocComment(input.subrange(from + 1, to))
    } else {
        Blank::LineComment(input.subrange(from, to))
    }
}

/// Where white space that starts at `off` ends: at the first byte that is
/// neither a space, a carriage return or a line break nor part of a
/// comment, or at the end of the input. `in_comment` says whether `off`
/// lies inside a comment.
pub open spec fn blank_end(input: Seq<u8>, off: int, in_comment: bool) -> int
    decreases input.len() - off,
{
    if off < 0 || off >= input.len() {
        off
    } else if in_comment {
        blank_end(input, off + 1, input[off] != NEWLINE)
    } else if input[off] == SPACE || input[off] == CARRIAGE_RETURN || input[off] == NEWLINE {
        blank_end(input, off + 1, false)
    } else if input[off] == HASH {
        blank_end(input, off + 1, true)
    } else {
        off
    }
}

/// The line breaks and comments of the white space that starts at `off`.
/// Inside a comment, `from` is where its text began. The line break that
/// ends a comment is part of the comment.
pub open spec fn blank_items(input: Seq<u8>, off: int, in_comment: bool, from: int) -> Seq<Blank>
    decreases input.len() - off,
{
    if off < 0 || off >= input.len() {
        if in_comment {
            seq![comment_at(input, from, off)]
        } else {
            Seq::empty()
        }
    } else if in_comment {
        if input[off] == NEWLINE {
            seq![comment_at(input, from, off)].add(blank_items(input, off + 1, false, 0))
        } else {
            blank_items(input, off + 1, true, from)
        }
    } else if input[off] == NEWLINE {
        seq![Blank::Newline].add(blank_items(input, off + 1, false, 0))
    } else if input[off] == SPACE || input[off] == CARRIAGE_RETURN {
        blank_items(input, off + 1, false, 0)
    } else if input[off] == HASH {
        blank_items(input, off + 1, true, off + 1)
    } else {
        Seq::empty()
    }
}

/// The line break or comment that holds the text of `b`.
pub open spec fn unblank<'a>(b: Blank) -> CommentOrNewline<'a> {
    match b {
        Blank::Newline => CommentOrNewline::Newline,
        Blank::LineComment(text) => CommentOrNewline::LineComment(the_slice(text)),
        Blank::DocComment(text) => CommentOrNewline::DocComment(the_slice(text)),
    }
}

/// What reading white space at `state` comes to.
#[verifier::opaque]
pub open spec fn spaces_at<'a>(require_at_least_one: bool, min_indent: u16, state: State<'a>) -> ParseResult<
    'a,
    &'a [CommentOrNewline<'a>],
    SpaceProblem,
> {
    let end = blank_end(state.input@, state.offset as int, false);
    let s = state.at(end);
    let progress = if end == state.offset {
        Progress::NoProgress
    } else {
        Progress::MadeProgress
    };
    if s.at_byte(TAB) {
        Err((progress, SpaceProblem::BadInput(BadInputError::HasTab), s))
    } else if require_at_least_one && end == state.offset {
        Err((Progress::NoProgress, SpaceProblem::Expected, state))
    } else if s.line > state.line && s.indent_col < min_indent {
        Err((Progress::MadeProgress, SpaceProblem::Outdented, s))
    } else {
        Ok(
            (
                progress,
                the_slice(
                    blank_items(state.input@, state.offset as int, false, 0).map_values(
                        |b: Blank| unblank(b),
                    ),
                ),
                s,
            ),
        )
    }
}

/// Reads white space. `require_at_least_one` asks for at least one byte of
/// it. If the white space held a line break, the line on which it ends must
/// be indented by `min_indent` at least.
///
/// The white space ends where `blank_end` says. It is an error if a tab
/// stands there (`HasTab`), else if nothing was read though something was
/// required (`Expected`, without progress), else if a line break was
/// crossed and the last line is indented too little (`Outdented`).
pub fn spaces<'a>(require_at_least_one: bool, min_indent: u16, arena: &'a Arena, state: State<'a>) -> (r:
    ParseResult<'a, &'a [CommentOrNewline<'a>], SpaceProblem>)
    requires
        state.wf(),
    ensures
        moves_on(r, state),
        r == spaces_at(require_at_least_one, min_indent, state),
        match r {
            Ok((_, items, s)) => {
                &&& s.offset == blank_end(state.input@, state.offset as int, false)
                &&& blanks_of(items@) == blank_items(state.input@, state.offset as int, false, 0)
                &&& !s.at_byte(TAB)
                &&& require_at_least_one ==> s.offset > state.offset
                &&& s.line > state.line ==> s.indent_col >= min_indent
            },
            Err((p, SpaceProblem::BadInput(bad), s)) => {
                &&& s.offset == blank_end(state.input@, state.offset as int, false)
                &&& bad == BadInputError::HasTab
                &&& s.at_byte(TAB)
                &&& p is NoProgress <==> s.offset == state.offset
            },
            Err((p, SpaceProblem::Expected, s)) => {
                &&& require_at_least_one
                &&& p is NoProgress
                &&& state.offset == blank_end(state.input@, state.offset as int, false)
                &&& !state.at_byte(TAB)
            },
            Err((p, SpaceProblem::Outdented, s)) => {
                &&& s.offset == blank_end(state.input@, state.offset as int, false)
                &&& !s.at_byte(TAB)
                &&& s.line > state.line
                &&& s.indent_col < min_indent
                &&& p is MadeProgress
            },
        },
{
    reveal(spaces_at);
    let mut cur: State<'a> = state;
    let mut in_comment: bool = false;
    let mut from: usize = 0;
    let mut items: Vec<CommentOrNewline<'a>> = Vec::new();
    let ghost input = state.input@;
    let ghost start = state.offset as int;
    loop
        invariant_except_break
            blank_end(input, cur.offset as int, in_comment) == blank_end(input, start, false),
            blanks_of(items@).add(blank_items(input, cur.offset as int, in_comment, from as int))
                == blank_items(input, start, false, 0),
            in_comment ==> start < from <= cur.offset,
            !in_comment ==> from == 0,
        invariant
            cur.extends(state),
            state.wf(),
            input == state.input@,
            start == state.offset,
        ensures
            cur.offset == blank_end(input, start, false),
            blanks_of(items@) == blank_items(input, start, false, 0),
        decreases input.len() - cur.offset,
    {
        let ghost before = blanks_of(items@);
        let ghost rest = blank_items(input, cur.offset as int, in_comment, from as int);
        match cur.peek() {
            None => {
                if in_comment {
                    let text: &'a [u8] = slice_of(state.input, from, cur.offset);
                    let item = comment_item(text);
                    items.push(item);
                    proof {
                        if from < cur.offset {
                            if from < cur.offset {
                                assert(text@.subrange(1, text@.len() as int) =~= input.subrange(
                                    from + 1,
                                    cur.offset as int,
                                ));
                            }
                        }
                        assert(blank_of(item) == comment_at(input, from as int, cur.offset as int));
                        assert(blanks_of(items@) =~= before.push(blank_of(item)));
                        assert(before.push(blank_of(item)) =~= before.add(rest));
                    }
                } else {
                    assert(before.add(rest) =~= before);
                }
                break ;
            },
            Some(b) => {
                if in_comment {
                    if b == NEWLINE {
                        let text: &'a [u8] = slice_of(state.input, from, cur.offset);
                        let item = comment_item(text);
                        items.push(item);
                        proof {
                            if from < cur.offset {
                                assert(text@.subrange(1, text@.len() as int) =~= input.subrange(
                                    from + 1,
                                    cur.offset as int,
                                ));
                            }
                            assert(blank_of(item) == comment_at(
                                input,
                                from as int,
                                cur.offset as int,
                            ));
                            assert(blanks_of(items@) =~= before.push(blank_of(item)));
                            let tail = blank_items(input, cur.offset + 1, false, 0);
                            assert(before.push(blank_of(item)).add(tail) =~= before.add(rest));
                        }
                        in_comment = false;
                        from = 0;
                    }
                    cur = cur.advance();
                } else if b == NEWLINE {
                    items.push(CommentOrNewline::Newline);
                    proof {
                        assert(blanks_of(items@) =~= before.push(Blank::Newline));
                        let tail = blank_items(input, cur.offset + 1, false, 0);
                        assert(before.push(Blank::Newline).add(tail) =~= before.add(rest));
                    }
                    cur = cur.advance();
                } else if b == SPACE || b == CARRIAGE_RETURN {
                    cur = cur.advance();
                } else if b == HASH {
                    cur = cur.advance();
                    in_comment = true;
                    from = cur.offset;
                } else {
                    assert(before.add(rest) =~= before);
                    break ;
                }
            },
        }
    }
    proof {
        crate::state::lemma_position_grows(input, start, cur.offset as int);
        lemma_state_at(state, cur);
    }
    let progress = Progress::from_offsets(state.offset, cur.offset);
    match cur.peek() {
        Some(b) => {
            if b == TAB {
                return Err((progress, SpaceProblem::BadInput(BadInputError::HasTab), cur));
            }
        },
        None => {},
    }
    if require_at_least_one && cur.offset == state.offset {
        return Err((Progress::NoProgress, SpaceProblem::Expected, state));
    }
    if cur.line > state.line && cur.indent_col < min_indent {
        return Err((Progress::MadeProgress, SpaceProblem::Outdented, cur));
    }
    let found: &'a [CommentOrNewline<'a>] = alloc_slice_in(arena, items.as_slice());
    proof {
        let wanted = blank_items(input, start, false, 0).map_values(|b: Blank| unblank(b));
        assert(found@ =~= wanted) by {
            assert forall|k: int| 0 <= k < found@.len() implies found@[k] == wanted[k] by {
                assert(blanks_of(items@)[k] == blank_of(found@[k]));
                match found@[k] {
                    CommentOrNewline::Newline => {},
                    CommentOrNewline::LineComment(text) => {
                        lemma_the_slice(text);
                    },
                    CommentOrNewline::DocComment(text) => {
                        lemma_the_slice(text);
                    },
                }
            }
        }
        lemma_the_slice(found);
    }
    Ok((progress, found, cur))
}

/// The comment with the text `text`, which is what follows its first `#`.
fn comment_item<'a>(text: &'a [u8]) -> (item: CommentOrNewline<'a>)
    ensures
        blank_of(item) == if text@.len() > 0 && text@[0] == HASH {
            Blank::DocComment(text@.subrange(1, text@.len() as int))
        } else {
            Blank::LineComment(text@)
        },
{
    if text.len() > 0 && text[0] == HASH {
        CommentOrNewline::DocComment(slice_of(text, 1, text.len()))
    } else {
        CommentOrNewline::LineComment(text)
    }
}

/// The part of `text` from `from` up to `to`.
pub fn slice_of<'a>(text: &'a [u8], from: usize, to: usize) -> (part: &'a [u8])
    requires
        from <= to <= text@.len(),
    ensures
        part@ == text@.subrange(from as int, to as int),
        part == the_slice::<u8>(text@.subrange(from as int, to as int)),
{
    let part: &'a [u8] = &text[from..to];
    proof {
        lemma_the_slice(part);
    }
    part
}

/// White space, possibly none.
pub fn space0<'a>(min_indent: u16, arena: &'a Arena, state: State<'a>) -> (r: ParseResult<
    'a,
    &'a [CommentOrNewline<'a>],
    SpaceProblem,
>)
    requires
        state.wf(),
    ensures
        moves_on(r, state),
        r == spaces_at(false, min_indent, state),
        state_of(r).offset == blank_end(state.input@, state.offset as int, false),
        match r {
            Ok((_, items, s)) => blanks_of(items@) == blank_items(
                state.input@,
                state.offset as int,
                false,
                0,
            ) && !s.at_byte(TAB) && (s.line > state.line ==> s.indent_col >= min_indent),
            Err((p, problem, s)) => (problem matches SpaceProblem::BadInput(bad) ==> s.at_byte(TAB))
                && (problem is Outdented ==> s.line > state.line && s.indent_col < min_indent)
                && !(problem is Expected),
        },
{
    spaces(false, min_indent, arena, state)
}

/// White space, one byte of it at least.
pub fn space1<'a>(min_indent: u16, arena: &'a Arena, state: State<'a>) -> (r: ParseResult<
    'a,
    &'a [CommentOrNewline<'a>],
    SpaceProblem,
>)
    requires
        state.wf(),
    ensures
        moves_on(r, state),
        r == spaces_at(true, min_indent, state),
        match r {
            Ok((p, items, s)) => s.offset == blank_end(state.input@, state.offset as int, false)
                && p is MadeProgress && blanks_of(items@) == blank_items(
                state.input@,
                state.offset as int,
                false,
                0,
            ) && !s.at_byte(TAB) && (s.line > state.line ==> s.indent_col >= min_indent),
            Err((p, problem, s)) => (problem is Expected <==> state.offset == blank_end(
                state.input@,
                state.offset as int,
                false,
            ) && !state.at_byte(TAB)),
        },
{
    spaces(true, min_indent, arena, state)
}

} // verus!
