//! The grammar of expressions.
//!
//! Every function here reads one part of the grammar at the cursor it is
//! given. `min_indent` is the column to the left of which no line of that
//! part may begin.

use vstd::prelude::*;
use crate::arena::{alloc_in, Arena, List};
use crate::ast::{BinOp, CalledVia, CommentOrNewline, Expr, Ident, UnaryOp};
use crate::blankspace::{space0, space1, spaces_at, HASH};
use crate::bounds::{expr_in, inside, lemma_expr_widen, lemma_loc_exprs_widen, loc_expr_in, loc_exprs_in};
use crate::combinators::{
    expr_error, gives_way, locate, located, or_else, reads_located_expr, syntax_in_expr,
    syntax_in_list, syntax_in_parens,
};
use crate::errors::{moves_on, EExpr, EInParens, EList, ParseResult, SyntaxError};
use crate::ident::{field_chain, ident, ident_ok, is_keyword, is_lower, word_at, DOT};
use crate::literal::{number_literal, string_literal, MINUS, QUOTE};
use crate::region::{Located, Region};
use crate::state::{lemma_same_line, Progress, State, NEWLINE, SPACE};
use crate::to_pattern::{access_chain, ident_to_expr, lemma_access_chain_in, wrap_accesses};

verus! {

pub const EQUALS: u8 = 61;

pub const GREATER: u8 = 62;

pub const COLON: u8 = 58;

pub const BANG: u8 = 33;

pub const OPEN_PAREN: u8 = 40;

pub const CLOSE_PAREN: u8 = 41;

pub const OPEN_BRACKET: u8 = 91;

pub const CLOSE_BRACKET: u8 = 93;

pub const COMMA: u8 = 44;

// ---- binary operators ----

/// The byte `k` places after the cursor, or 0 past the end of the input.
pub open spec fn byte_at(state: State, k: int) -> u8 {
    if state.offset + k < state.input@.len() {
        state.input@[state.offset + k]
    } else {
        0
    }
}

/// The binary operator that starts at the cursor, with the number of bytes
/// it is written with. Of two operators of which one begins with the other,
/// it is the longer.
#[verifier::opaque]
pub open spec fn binop_at(state: State) -> Option<(BinOp, int)> {
    let a = byte_at(state, 0);
    let b = byte_at(state, 1);
    if a == 124 && b == GREATER {
        Some((BinOp::Pizza, 2int))
    } else if a == EQUALS && b == EQUALS {
        Some((BinOp::Equals, 2int))
    } else if a == BANG && b == EQUALS {
        Some((BinOp::NotEquals, 2int))
    } else if a == 38 && b == 38 {
        Some((BinOp::And, 2int))
    } else if a == 124 && b == 124 {
        Some((BinOp::Or, 2int))
    } else if a == 43 {
        Some((BinOp::Plus, 1int))
    } else if a == 42 {
        Some((BinOp::Star, 1int))
    } else if a == MINUS {
        Some((BinOp::Minus, 1int))
    } else if a == 47 && b == 47 {
        Some((BinOp::DoubleSlash, 2int))
    } else if a == 47 {
        Some((BinOp::Slash, 1int))
    } else if a == 60 && b == EQUALS {
        Some((BinOp::LessThanOrEq, 2int))
    } else if a == 60 {
        Some((BinOp::LessThan, 1int))
    } else if a == GREATER && b == EQUALS {
        Some((BinOp::GreaterThanOrEq, 2int))
    } else if a == GREATER {
        Some((BinOp::GreaterThan, 1int))
    } else if a == 94 {
        Some((BinOp::Caret, 1int))
    } else if a == 37 && b == 37 {
        Some((BinOp::DoublePercent, 2int))
    } else if a == 37 {
        Some((BinOp::Percent, 1int))
    } else {
        None
    }
}

/// The byte `k` places after the cursor, or 0 past the end of the input.
fn byte_or_zero<'a>(state: &State<'a>, k: usize) -> (b: u8)
    requires
        state.wf(),
    ensures
        b == byte_at(*state, k as int),
{
    match state.peek_at(k) {
        Some(b) => b,
        None => 0,
    }
}

/// The binary operator at the cursor, with the cursor after it.
pub open spec fn binop_value<'a>(state: State<'a>) -> Option<(BinOp, State<'a>)> {
    match binop_at(state) {
        Some((op, width)) => Some((op, state.after(width))),
        None => None,
    }
}

/// Reads a binary operator.
pub fn binop<'a>(state: State<'a>) -> (r: Option<(BinOp, State<'a>)>)
    requires
        state.wf(),
    ensures
        r == binop_value(state),
        match r {
            Some((op, s)) => binop_at(state) == Some((op, s.offset - state.offset)) && s.extends(
                state,
            ) && s.line == state.line,
            None => binop_at(state) is None,
        },
{
    reveal(binop_at);
    let a: u8 = byte_or_zero(&state, 0);
    let b: u8 = byte_or_zero(&state, 1);
    let found: Option<(BinOp, usize)> = if a == 124 && b == GREATER {
        Some((BinOp::Pizza, 2))
    } else if a == EQUALS && b == EQUALS {
        Some((BinOp::Equals, 2))
    } else if a == BANG && b == EQUALS {
        Some((BinOp::NotEquals, 2))
    } else if a == 38 && b == 38 {
        Some((BinOp::And, 2))
    } else if a == 124 && b == 124 {
        Some((BinOp::Or, 2))
    } else if a == 43 {
        Some((BinOp::Plus, 1))
    } else if a == 42 {
        Some((BinOp::Star, 1))
    } else if a == MINUS {
        Some((BinOp::Minus, 1))
    } else if a == 47 && b == 47 {
        Some((BinOp::DoubleSlash, 2))
    } else if a == 47 {
        Some((BinOp::Slash, 1))
    } else if a == 60 && b == EQUALS {
        Some((BinOp::LessThanOrEq, 2))
    } else if a == 60 {
        Some((BinOp::LessThan, 1))
    } else if a == GREATER && b == EQUALS {
        Some((BinOp::GreaterThanOrEq, 2))
    } else if a == GREATER {
        Some((BinOp::GreaterThan, 1))
    } else if a == 94 {
        Some((BinOp::Caret, 1))
    } else if a == 37 && b == 37 {
        Some((BinOp::DoublePercent, 2))
    } else if a == 37 {
        Some((BinOp::Percent, 1))
    } else {
        None
    };
    match found {
        Some((op, width)) => {
            let s = state.advance_by(width);
            proof {
                lemma_same_line(state.input@, state.offset as int, s.offset as int);
            }
            Some((op, s))
        },
        None => None,
    }
}

// ---- the signs of a definition ----

/// An `=` that can begin the body of a definition stands at the cursor:
/// one that is not the start of `==` or `=>`.
pub open spec fn at_def_equals(state: State) -> bool {
    state.at_byte(EQUALS) && byte_at(state, 1) != EQUALS && byte_at(state, 1) != GREATER
}

/// What reading the `=` of a definition comes to.
pub open spec fn equals_for_def_at<'a>(state: State<'a>) -> ParseResult<'a, (), SyntaxError<'a>> {
    if at_def_equals(state) {
        Ok((Progress::MadeProgress, (), state.after(1)))
    } else {
        Err((Progress::NoProgress, SyntaxError::ConditionFailed, state))
    }
}

/// Reads the `=` of a definition. An `=` with another `=` or a `>` after
/// it is the start of another sign and is left alone.
pub fn equals_for_def<'a>(state: State<'a>) -> (r: ParseResult<'a, (), SyntaxError<'a>>)
    requires
        state.wf(),
    ensures
        r == equals_for_def_at(state),
        moves_on(r, state),
        match r {
            Ok((p, _, s)) => at_def_equals(state) && s.offset == state.offset + 1 && s.line
                == state.line,
            Err((p, e, s)) => !at_def_equals(state) && p is NoProgress && e
                == SyntaxError::ConditionFailed,
        },
{
    if byte_or_zero(&state, 0) == EQUALS && state.offset < state.input.len() {
        let next: u8 = byte_or_zero(&state, 1);
        if next == EQUALS || next == GREATER {
            Err((Progress::NoProgress, SyntaxError::ConditionFailed, state))
        } else {
            let s = state.advance();
            proof {
                lemma_same_line(state.input@, state.offset as int, s.offset as int);
            }
            Ok((Progress::MadeProgress, (), s))
        }
    } else {
        Err((Progress::NoProgress, SyntaxError::ConditionFailed, state))
    }
}

/// An `=` of a definition with something after it stands at the cursor.
pub open spec fn at_def_equals_before_more(state: State) -> bool {
    at_def_equals(state) && state.offset + 1 < state.input@.len()
}

/// What reading the `=` of a definition, with something after it, comes
/// to.
pub open spec fn equals_with_indent_help_at<'a>(state: State<'a>) -> ParseResult<
    'a,
    u16,
    EExpr<'a>,
> {
    if at_def_equals_before_more(state) {
        Ok((Progress::MadeProgress, state.indent_col, state.after(1)))
    } else {
        Err((Progress::NoProgress, EExpr::Equals(state.line, state.column), state))
    }
}

/// Reads the `=` of a definition, like `equals_for_def`, but asks for at
/// least one byte after it, and hands back the indentation of the line that
/// the `=` stands on.
pub fn equals_with_indent_help<'a>(state: State<'a>) -> (r: ParseResult<'a, u16, EExpr<'a>>)
    requires
        state.wf(),
    ensures
        r == equals_with_indent_help_at(state),
        moves_on(r, state),
        match r {
            Ok((p, indent, s)) => at_def_equals_before_more(state) && indent == state.indent_col
                && s.offset == state.offset + 1 && s.line == state.line,
            Err((p, e, s)) => !at_def_equals_before_more(state) && p is NoProgress && e
                == EExpr::Equals(state.line, state.column),
        },
{
    let problem = EExpr::Equals(state.line, state.column);
    match state.peek() {
        Some(b) => {
            if b == EQUALS {
                match state.peek_at(1) {
                    Some(next) => {
                        if next == EQUALS || next == GREATER {
                            Err((Progress::NoProgress, problem, state))
                        } else {
                            let s = state.advance();
                            proof {
                                lemma_same_line(state.input@, state.offset as int, s.offset as int);
                            }
                            Ok((Progress::MadeProgress, state.indent_col, s))
                        }
                    },
                    None => Err((Progress::NoProgress, problem, state)),
                }
            } else {
                Err((Progress::NoProgress, problem, state))
            }
        },
        None => Err((Progress::NoProgress, problem, state)),
    }
}

pub open spec fn equals_with_indent_at<'a>(state: State<'a>) -> ParseResult<
    'a,
    u16,
    SyntaxError<'a>,
> {
    if at_def_equals_before_more(state) {
        Ok((Progress::MadeProgress, state.indent_col, state.after(1)))
    } else if state.offset >= state.input@.len() || (state.at_byte(EQUALS) && state.offset + 1
        >= state.input@.len()) {
        Err(
            (
                Progress::NoProgress,
                SyntaxError::Eof(Region::between(state.position(), state.position())),
                state,
            ),
        )
    } else {
        Err(
            (
                Progress::NoProgress,
                SyntaxError::Unexpected(Region::between(state.position(), state.position())),
                state,
            ),
        )
    }
}

/// Reads the `=` of a definition and hands back the indentation of its
/// line, with errors that say what was found instead: the end of the input
/// (at the cursor, or right after the `=`), or something unexpected.
pub fn equals_with_indent<'a>(state: State<'a>) -> (r: ParseResult<'a, u16, SyntaxError<'a>>)
    requires
        state.wf(),
    ensures
        r == equals_with_indent_at(state),
        moves_on(r, state),
        match r {
            Ok((p, indent, s)) => at_def_equals_before_more(state) && indent == state.indent_col
                && s.offset == state.offset + 1 && s.line == state.line,
            Err((p, e, s)) => !at_def_equals_before_more(state) && p is NoProgress && e == (
            if state.offset >= state.input@.len() || (state.at_byte(EQUALS) && state.offset + 1
                >= state.input@.len()) {
                SyntaxError::Eof(Region::between(state.position(), state.position()))
            } else {
                SyntaxError::Unexpected(Region::between(state.position(), state.position()))
            }),
        },
{
    let here = Region::from_positions(state.pos(), state.pos());
    match state.peek() {
        Some(b) => {
            if b == EQUALS {
                match state.peek_at(1) {
                    Some(next) => {
                        if next == EQUALS || next == GREATER {
                            Err((Progress::NoProgress, SyntaxError::Unexpected(here), state))
                        } else {
                            let s = state.advance();
                            proof {
                                lemma_same_line(state.input@, state.offset as int, s.offset as int);
                            }
                            Ok((Progress::MadeProgress, state.indent_col, s))
                        }
                    },
                    None => Err((Progress::NoProgress, SyntaxError::Eof(here), state)),
                }
            } else {
                Err((Progress::NoProgress, SyntaxError::Unexpected(here), state))
            }
        },
        None => Err((Progress::NoProgress, SyntaxError::Eof(here), state)),
    }
}

pub open spec fn colon_with_indent_help_at<'a>(state: State<'a>) -> ParseResult<
    'a,
    u16,
    EExpr<'a>,
> {
    if state.at_byte(COLON) {
        Ok((Progress::MadeProgress, state.indent_col, state.after(1)))
    } else {
        Err((Progress::NoProgress, EExpr::Colon(state.line, state.column), state))
    }
}

/// Reads the `:` of an annotation and hands back the indentation of the
/// line that it stands on.
pub fn colon_with_indent_help<'a>(state: State<'a>) -> (r: ParseResult<'a, u16, EExpr<'a>>)
    requires
        state.wf(),
    ensures
        r == colon_with_indent_help_at(state),
        moves_on(r, state),
        match r {
            Ok((p, indent, s)) => state.at_byte(COLON) && indent == state.indent_col && s.offset
                == state.offset + 1 && s.line == state.line,
            Err((p, e, s)) => !state.at_byte(COLON) && p is NoProgress && e == EExpr::Colon(
                state.line,
                state.column,
            ),
        },
{
    match state.word1(COLON) {
        Some(s) => {
            proof {
                lemma_same_line(state.input@, state.offset as int, s.offset as int);
            }
            Ok((Progress::MadeProgress, state.indent_col, s))
        },
        None => Err((Progress::NoProgress, EExpr::Colon(state.line, state.column), state)),
    }
}

/// What stands where an expression should and none begins: a failure
/// without progress that says so.
pub fn fail_expr_start<'a, T>(state: State<'a>) -> (r: ParseResult<'a, T, SyntaxError<'a>>)
    requires
        state.wf(),
    ensures
        r == Err::<(Progress, T, State<'a>), _>(
            (Progress::NoProgress, SyntaxError::Expr(EExpr::Start(state.line, state.column)), state),
        ),
{
    Err((Progress::NoProgress, SyntaxError::Expr(EExpr::Start(state.line, state.column)), state))
}

/// One of the reserved words starts what remains. Whether the word ends
/// there is not looked at: `iffy` starts with `if`.
pub open spec fn at_reserved_word(state: State) -> bool {
    ||| state.at_word(seq![105u8, 102u8])
    ||| state.at_word(seq![116u8, 104u8, 101u8, 110u8])
    ||| state.at_word(seq![101u8, 108u8, 115u8, 101u8])
    ||| state.at_word(seq![119u8, 104u8, 101u8, 110u8])
    ||| state.at_word(seq![105u8, 115u8])
    ||| state.at_word(seq![97u8, 115u8])
}

/// What reading a reserved word comes to: the first of `if`, the word
/// that follows a condition, `else`, `when`, `is` and `as`, in this order,
/// that what remains starts with.
#[verifier::opaque]
pub open spec fn reserved_keyword_at<'a>(state: State<'a>) -> ParseResult<
    'a,
    (),
    SyntaxError<'a>,
> {
    if state.at_word(seq![105u8, 102u8]) {
        Ok((Progress::MadeProgress, (), state.after(2)))
    } else if state.at_word(seq![116u8, 104u8, 101u8, 110u8]) {
        Ok((Progress::MadeProgress, (), state.after(4)))
    } else if state.at_word(seq![101u8, 108u8, 115u8, 101u8]) {
        Ok((Progress::MadeProgress, (), state.after(4)))
    } else if state.at_word(seq![119u8, 104u8, 101u8, 110u8]) {
        Ok((Progress::MadeProgress, (), state.after(4)))
    } else if state.at_word(seq![105u8, 115u8]) {
        Ok((Progress::MadeProgress, (), state.after(2)))
    } else if state.at_word(seq![97u8, 115u8]) {
        Ok((Progress::MadeProgress, (), state.after(2)))
    } else {
        Err((Progress::NoProgress, SyntaxError::ConditionFailed, state))
    }
}

/// Reads one of the reserved words `if`, `then`, `else`, `when`, `is` and
/// `as`, the first of them in this order that what remains starts with.
pub fn reserved_keyword<'a>(state: State<'a>) -> (r: ParseResult<'a, (), SyntaxError<'a>>)
    requires
        state.wf(),
    ensures
        r == reserved_keyword_at(state),
        moves_on(r, state),
        r is Ok <==> at_reserved_word(state),
        r matches Err((p, e, _)) ==> p is NoProgress && e == SyntaxError::ConditionFailed,
        r matches Ok((_, _, s)) ==> s.offset == state.offset + 2 || s.offset == state.offset + 4,
{
    reveal(reserved_keyword_at);
    let word_if: [u8; 2] = [105, 102];
    let word_then: [u8; 4] = [116, 104, 101, 110];
    let word_else: [u8; 4] = [101, 108, 115, 101];
    let word_when: [u8; 4] = [119, 104, 101, 110];
    let word_is: [u8; 2] = [105, 115];
    let word_as: [u8; 2] = [97, 115];
    proof {
        assert(word_if@ =~= seq![105u8, 102u8]);
        assert(word_then@ =~= seq![116u8, 104u8, 101u8, 110u8]);
        assert(word_else@ =~= seq![101u8, 108u8, 115u8, 101u8]);
        assert(word_when@ =~= seq![119u8, 104u8, 101u8, 110u8]);
        assert(word_is@ =~= seq![105u8, 115u8]);
        assert(word_as@ =~= seq![97u8, 115u8]);
    }
    if let Some(s) = state.ascii_string(word_if.as_slice()) {
        return Ok((Progress::MadeProgress, (), s));
    }
    if let Some(s) = state.ascii_string(word_then.as_slice()) {
        return Ok((Progress::MadeProgress, (), s));
    }
    if let Some(s) = state.ascii_string(word_else.as_slice()) {
        return Ok((Progress::MadeProgress, (), s));
    }
    if let Some(s) = state.ascii_string(word_when.as_slice()) {
        return Ok((Progress::MadeProgress, (), s));
    }
    if let Some(s) = state.ascii_string(word_is.as_slice()) {
        return Ok((Progress::MadeProgress, (), s));
    }
    if let Some(s) = state.ascii_string(word_as.as_slice()) {
        return Ok((Progress::MadeProgress, (), s));
    }
    Err((Progress::NoProgress, SyntaxError::ConditionFailed, state))
}

// ---- white space around expressions ----

/// An expression with the white space that was read before it, if any.
pub open spec fn spaced_before<'a>(
    spaces: &'a [CommentOrNewline<'a>],
    e: Located<Expr<'a>>,
) -> Located<Expr<'a>> {
    if spaces@.len() == 0 {
        e
    } else {
        Located { region: e.region, value: Expr::SpaceBefore(&e.value, spaces) }
    }
}

/// An expression with the white space that was read after it, if any.
pub open spec fn spaced_after<'a>(
    spaces: &'a [CommentOrNewline<'a>],
    e: Located<Expr<'a>>,
) -> Located<Expr<'a>> {
    if spaces@.len() == 0 {
        e
    } else {
        Located { region: e.region, value: Expr::SpaceAfter(&e.value, spaces) }
    }
}

/// Wraps an expression in the white space that was read before it, if any.
pub fn with_spaces_before<'a>(
    arena: &'a Arena,
    spaces: &'a [CommentOrNewline<'a>],
    e: Located<Expr<'a>>,
) -> (r: Located<Expr<'a>>)
    ensures
        r == spaced_before(spaces, e),
        r.region == e.region,
        r.value == if spaces@.len() == 0 {
            e.value
        } else {
            Expr::SpaceBefore(&e.value, spaces)
        },
        expr_in(e.value, e.region) ==> expr_in(r.value, r.region),
{
    if spaces.len() == 0 {
        e
    } else {
        Located { region: e.region, value: Expr::SpaceBefore(alloc_in(arena, e.value), spaces) }
    }
}

/// Wraps an expression in the white space that was read after it, if any.
pub fn with_spaces_after<'a>(
    arena: &'a Arena,
    spaces: &'a [CommentOrNewline<'a>],
    e: Located<Expr<'a>>,
) -> (r: Located<Expr<'a>>)
    ensures
        r == spaced_after(spaces, e),
        r.region == e.region,
        r.value == if spaces@.len() == 0 {
            e.value
        } else {
            Expr::SpaceAfter(&e.value, spaces)
        },
        expr_in(e.value, e.region) ==> expr_in(r.value, r.region),
{
    if spaces.len() == 0 {
        e
    } else {
        Located { region: e.region, value: Expr::SpaceAfter(alloc_in(arena, e.value), spaces) }
    }
}

// ---- literals and identifiers as expressions ----

pub open spec fn string_literal_help_at<'a>(state: State<'a>) -> ParseResult<
    'a,
    Expr<'a>,
    crate::errors::EString,
> {
    match crate::literal::string_value(state) {
        Ok((p, lit, s)) => Ok((p, Expr::Str(lit), s)),
        Err(e) => Err(e),
    }
}

pub open spec fn string_literal_expr_at<'a>(state: State<'a>) -> ParseResult<
    'a,
    Expr<'a>,
    SyntaxError<'a>,
> {
    match string_literal_help_at(state) {
        Ok(ok) => Ok(ok),
        Err((p, e, s)) => Err((p, SyntaxError::Expr(EExpr::Str(e, s.line, s.column)), s)),
    }
}

pub open spec fn number_literal_help_at<'a>(state: State<'a>) -> ParseResult<
    'a,
    Expr<'a>,
    crate::errors::ENumber,
> {
    match crate::literal::number_value(state) {
        Some((e, s)) => Ok((Progress::MadeProgress, e, s)),
        None => Err((Progress::NoProgress, crate::errors::ENumber::Start, state)),
    }
}

pub open spec fn number_literal_expr_at<'a>(state: State<'a>) -> ParseResult<
    'a,
    Expr<'a>,
    SyntaxError<'a>,
> {
    match number_literal_help_at(state) {
        Ok(ok) => Ok(ok),
        Err((p, e, s)) => Err((p, SyntaxError::Expr(EExpr::Number(e, s.line, s.column)), s)),
    }
}

/// What reading an identifier that stands for itself comes to.
pub open spec fn ident_without_apply_at<'a>(state: State<'a>) -> ParseResult<
    'a,
    Expr<'a>,
    SyntaxError<'a>,
> {
    match crate::ident::ident_value(state) {
        Some((id, s)) => Ok((Progress::MadeProgress, crate::to_pattern::expr_of_ident(id), s)),
        None => Err(
            (Progress::NoProgress, SyntaxError::Expr(EExpr::Ident(state.line, state.column)), state),
        ),
    }
}

/// What reading one field access comes to.
pub open spec fn record_field_access_at<'a>(state: State<'a>) -> ParseResult<
    'a,
    &'a [u8],
    EExpr<'a>,
> {
    match state.spec_word1(DOT) {
        Some(after_dot) => match crate::ident::lowercase_at(after_dot) {
            Some((name, s)) => Ok((Progress::MadeProgress, name, s)),
            None => Err((Progress::NoProgress, EExpr::Access(state.line, state.column), state)),
        },
        None => Err((Progress::NoProgress, EExpr::Access(state.line, state.column), state)),
    }
}

/// What reading one or more field accesses comes to.
pub open spec fn record_field_access_chain_at<'a>(state: State<'a>) -> ParseResult<
    'a,
    List<'a, &'a [u8]>,
    EExpr<'a>,
> {
    if crate::ident::field_chain_at(state).0 is Nil {
        Err((Progress::NoProgress, EExpr::Access(state.line, state.column), state))
    } else {
        Ok(
            (
                Progress::MadeProgress,
                crate::ident::field_chain_at(state).0,
                crate::ident::field_chain_at(state).1,
            ),
        )
    }
}

/// Reads a string literal as an expression.
pub fn string_literal_help<'a>(arena: &'a Arena, state: State<'a>) -> (r: ParseResult<
    'a,
    Expr<'a>,
    crate::errors::EString,
>)
    requires
        state.wf(),
    ensures
        r == string_literal_help_at(state),
        moves_on(r, state),
        (r matches Err((p, _, _)) && p is NoProgress) <==> !state.at_byte(QUOTE),
        r matches Ok((p, e, s)) ==> p is MadeProgress && e is Str && s.line == state.line,
{
    match string_literal(arena, state) {
        Ok((p, lit, s)) => Ok((p, Expr::Str(lit), s)),
        Err(e) => Err(e),
    }
}

/// Reads a string literal as an expression, with the error of a whole
/// parse.
pub fn string_literal_expr<'a>(arena: &'a Arena, state: State<'a>) -> (r: ParseResult<
    'a,
    Expr<'a>,
    SyntaxError<'a>,
>)
    requires
        state.wf(),
    ensures
        r == string_literal_expr_at(state),
        moves_on(r, state),
        (r matches Err((p, _, _)) && p is NoProgress) <==> !state.at_byte(QUOTE),
        r matches Ok((p, e, s)) ==> p is MadeProgress && e is Str && s.line == state.line,
{
    match string_literal_help(arena, state) {
        Ok(ok) => Ok(ok),
        Err((p, e, s)) => Err((p, SyntaxError::Expr(EExpr::Str(e, s.line, s.column)), s)),
    }
}

/// Reads a number literal as an expression.
pub fn number_literal_help<'a>(state: State<'a>) -> (r: ParseResult<
    'a,
    Expr<'a>,
    crate::errors::ENumber,
>)
    requires
        state.wf(),
    ensures
        r == number_literal_help_at(state),
        moves_on(r, state),
        r is Ok <==> crate::literal::at_number(state),
        r matches Ok((p, e, s)) ==> p is MadeProgress && crate::literal::is_number(e) && s.line
            == state.line,
        r matches Err((p, _, _)) ==> p is NoProgress,
{
    match number_literal(state) {
        Some((e, s)) => Ok((Progress::MadeProgress, e, s)),
        None => Err((Progress::NoProgress, crate::errors::ENumber::Start, state)),
    }
}

/// Reads a number literal as an expression, with the error of a whole
/// parse.
pub fn number_literal_expr<'a>(state: State<'a>) -> (r: ParseResult<'a, Expr<'a>, SyntaxError<'a>>)
    requires
        state.wf(),
    ensures
        r == number_literal_expr_at(state),
        moves_on(r, state),
        r is Ok <==> crate::literal::at_number(state),
        r matches Ok((p, e, s)) ==> p is MadeProgress && crate::literal::is_number(e) && s.line
            == state.line,
        r matches Err((p, _, _)) ==> p is NoProgress,
{
    match number_literal_help(state) {
        Ok(ok) => Ok(ok),
        Err((p, e, s)) => Err((p, SyntaxError::Expr(EExpr::Number(e, s.line, s.column)), s)),
    }
}

/// Reads an identifier that stands for itself, whatever follows it.
pub fn ident_without_apply<'a>(arena: &'a Arena, state: State<'a>) -> (r: ParseResult<
    'a,
    Expr<'a>,
    SyntaxError<'a>,
>)
    requires
        state.wf(),
    ensures
        r == ident_without_apply_at(state),
        moves_on(r, state),
        r is Ok <==> crate::ident::at_ident(state),
        r matches Ok((p, e, s)) ==> p is MadeProgress && s.line == state.line && (forall|
            region: Region,
        |
            expr_in(e, region)),
        r matches Err((p, e, _)) ==> p is NoProgress && e == SyntaxError::Expr(
            EExpr::Ident(state.line, state.column),
        ),
{
    match ident(arena, state) {
        Some((id, s)) => Ok((Progress::MadeProgress, ident_to_expr(arena, id), s)),
        None => Err(
            (
                Progress::NoProgress,
                SyntaxError::Expr(EExpr::Ident(state.line, state.column)),
                state,
            ),
        ),
    }
}

/// A field access starts at the cursor: a dot with a lower-case
/// identifier right after it.
pub open spec fn at_field_access(state: State) -> bool {
    state.at_byte(DOT) && state.offset + 1 < state.input@.len() && is_lower(
        state.input@[state.offset + 1],
    ) && !is_keyword(word_at(state.input@, state.offset + 1))
}

/// Reads one field access `.name` and hands back the name.
pub fn record_field_access<'a>(state: State<'a>) -> (r: ParseResult<'a, &'a [u8], EExpr<'a>>)
    requires
        state.wf(),
    ensures
        r == record_field_access_at(state),
        moves_on(r, state),
        r is Ok <==> at_field_access(state),
        r matches Ok((p, name, s)) ==> p is MadeProgress && name@ == word_at(
            state.input@,
            state.offset + 1,
        ) && s.offset == state.offset + 1 + name@.len(),
        r matches Err((p, e, _)) ==> p is NoProgress && e == EExpr::Access(
            state.line,
            state.column,
        ),
{
    match state.word1(DOT) {
        Some(after_dot) => match crate::ident::lowercase_ident(after_dot) {
            Some((name, s)) => Ok((Progress::MadeProgress, name, s)),
            None => Err((Progress::NoProgress, EExpr::Access(state.line, state.column), state)),
        },
        None => Err((Progress::NoProgress, EExpr::Access(state.line, state.column), state)),
    }
}

/// Reads one or more field accesses `.a.b.c`.
pub fn record_field_access_chain<'a>(arena: &'a Arena, state: State<'a>) -> (r: ParseResult<
    'a,
    List<'a, &'a [u8]>,
    EExpr<'a>,
>)
    requires
        state.wf(),
    ensures
        r == record_field_access_chain_at(state),
        moves_on(r, state),
        r is Ok <==> at_field_access(state),
        r matches Ok((p, fields, s)) ==> p is MadeProgress && fields@.len() >= 1 && s.line
            == state.line,
        r matches Err((p, e, _)) ==> p is NoProgress && e == EExpr::Access(
            state.line,
            state.column,
        ),
{
    let (fields, s) = field_chain(arena, state);
    if fields.is_empty() {
        Err((Progress::NoProgress, EExpr::Access(state.line, state.column), state))
    } else {
        Ok((Progress::MadeProgress, fields, s))
    }
}

/// The expression in parentheses `loc_expr` with the fields `fields` read
/// from it, in the region of `loc_expr`.
pub fn expr_in_parens_then_access<'a>(
    arena: &'a Arena,
    loc_expr: Located<Expr<'a>>,
    fields: List<'a, &'a [u8]>,
) -> (r: Located<Expr<'a>>)
    ensures
        r == (Located { region: loc_expr.region, value: access_chain(loc_expr.value, fields) }),
        r.region == loc_expr.region,
        r.value == access_chain(loc_expr.value, fields),
        expr_in(loc_expr.value, loc_expr.region) ==> expr_in(r.value, r.region),
{
    proof {
        if expr_in(loc_expr.value, loc_expr.region) {
            lemma_access_chain_in(loc_expr.value, fields, loc_expr.region);
        }
    }
    Located { region: loc_expr.region, value: wrap_accesses(arena, loc_expr.value, fields) }
}

/// The application of the expression in parentheses `loc_expr` to the
/// arguments `loc_args`, in the region `region`.
pub fn expr_in_parens_then_arguments<'a>(
    arena: &'a Arena,
    loc_expr: Located<Expr<'a>>,
    loc_args: List<'a, Located<Expr<'a>>>,
    region: Region,
) -> (r: Located<Expr<'a>>)
    ensures
        r == (Located { region, value: Expr::Apply(&loc_expr, loc_args, CalledVia::Space) }),
        r.region == region,
        r.value == Expr::Apply(&loc_expr, loc_args, CalledVia::Space),
        loc_expr_in(loc_expr, region) && loc_exprs_in(loc_args, region) ==> expr_in(
            r.value,
            r.region,
        ),
{
    Located { region, value: Expr::Apply(alloc_in(arena, loc_expr), loc_args, CalledVia::Space) }
}

// ---- unary operators ----

/// A `!` that negates what follows stands at the cursor: one that is not
/// the start of `!=`.
pub open spec fn at_unary_not(state: State) -> bool {
    state.at_byte(BANG) && byte_at(state, 1) != EQUALS
}

/// A `-` that negates what follows stands at the cursor: one with
/// something right after it that is neither white space nor a comment nor
/// the `>` of an arrow.
pub open spec fn at_unary_negate(state: State) -> bool {
    state.at_byte(MINUS) && state.offset + 1 < state.input@.len() && {
        let next = byte_at(state, 1);
        next != SPACE && next != NEWLINE && next != HASH && next != GREATER && next != 13
            && next != 9
    }
}

pub open spec fn unary_not_at<'a>(state: State<'a>) -> ParseResult<'a, (), EExpr<'a>> {
    if at_unary_not(state) {
        Ok((Progress::MadeProgress, (), state.after(1)))
    } else {
        Err((Progress::NoProgress, EExpr::UnaryNot(state.line, state.column), state))
    }
}

pub open spec fn unary_negate_at<'a>(state: State<'a>) -> ParseResult<'a, (), EExpr<'a>> {
    if at_unary_negate(state) {
        Ok((Progress::MadeProgress, (), state.after(1)))
    } else {
        Err((Progress::NoProgress, EExpr::UnaryNegate(state.line, state.column), state))
    }
}

/// What reading the sign of a unary operator comes to: `!`, or else `-`.
pub open spec fn unary_sign_at<'a>(state: State<'a>) -> ParseResult<'a, UnaryOp, EExpr<'a>> {
    if at_unary_not(state) {
        Ok((Progress::MadeProgress, UnaryOp::Not, state.after(1)))
    } else if at_unary_negate(state) {
        Ok((Progress::MadeProgress, UnaryOp::Negate, state.after(1)))
    } else {
        Err((Progress::NoProgress, EExpr::UnaryNegate(state.line, state.column), state))
    }
}

/// Reads the `!` of a negation.
pub fn unary_not<'a>(state: State<'a>) -> (r: ParseResult<'a, (), EExpr<'a>>)
    requires
        state.wf(),
    ensures
        r == unary_not_at(state),
        moves_on(r, state),
        r is Ok <==> at_unary_not(state),
        r matches Ok((p, _, s)) ==> s.offset == state.offset + 1,
        r matches Err((p, e, _)) ==> p is NoProgress && e == EExpr::UnaryNot(
            state.line,
            state.column,
        ),
{
    if byte_or_zero(&state, 0) == BANG && state.offset < state.input.len() && byte_or_zero(
        &state,
        1,
    ) != EQUALS {
        Ok((Progress::MadeProgress, (), state.advance()))
    } else {
        Err((Progress::NoProgress, EExpr::UnaryNot(state.line, state.column), state))
    }
}

/// Reads the `-` of a negation.
pub fn unary_negate<'a>(state: State<'a>) -> (r: ParseResult<'a, (), EExpr<'a>>)
    requires
        state.wf(),
    ensures
        r == unary_negate_at(state),
        moves_on(r, state),
        r is Ok <==> at_unary_negate(state),
        r matches Ok((p, _, s)) ==> s.offset == state.offset + 1,
        r matches Err((p, e, _)) ==> p is NoProgress && e == EExpr::UnaryNegate(
            state.line,
            state.column,
        ),
{
    let problem = EExpr::UnaryNegate(state.line, state.column);
    match (state.peek(), state.peek_at(1)) {
        (Some(sign), Some(next)) => {
            if sign == MINUS && next != SPACE && next != NEWLINE && next != HASH && next != GREATER
                && next != 13 && next != 9 {
                Ok((Progress::MadeProgress, (), state.advance()))
            } else {
                Err((Progress::NoProgress, problem, state))
            }
        },
        _ => Err((Progress::NoProgress, problem, state)),
    }
}

/// Reads the `!` of a negation as an operator.
pub fn not_sign<'a>(state: State<'a>) -> (r: ParseResult<'a, UnaryOp, EExpr<'a>>)
    requires
        state.wf(),
    ensures
        r == unary_sign_at(state) || !at_unary_not(state),
        moves_on(r, state),
        r is Ok <==> at_unary_not(state),
        r matches Ok((p, op, s)) ==> s.offset == state.offset + 1 && op is Not,
        r matches Err((p, e, _)) ==> p is NoProgress && e == EExpr::UnaryNot(
            state.line,
            state.column,
        ),
{
    match unary_not(state) {
        Ok((p, _, s)) => Ok((p, UnaryOp::Not, s)),
        Err(e) => Err(e),
    }
}

/// Reads the `-` of a negation as an operator.
pub fn negate_sign<'a>(state: State<'a>) -> (r: ParseResult<'a, UnaryOp, EExpr<'a>>)
    requires
        state.wf(),
    ensures
        r == unary_sign_at(state) || at_unary_not(state),
        moves_on(r, state),
        r is Ok <==> at_unary_negate(state),
        r matches Ok((p, op, s)) ==> s.offset == state.offset + 1 && op is Negate,
        r matches Err((p, e, _)) ==> p is NoProgress && e == EExpr::UnaryNegate(
            state.line,
            state.column,
        ),
{
    match unary_negate(state) {
        Ok((p, _, s)) => Ok((p, UnaryOp::Negate, s)),
        Err(e) => Err(e),
    }
}

/// What reading a unary operator and its operand comes to.
#[verifier::opaque]
pub open spec fn unary_op_help_at<'a>(min_indent: u16, state: State<'a>) -> ParseResult<
    'a,
    Expr<'a>,
    EExpr<'a>,
>
    decreases state.input@.len() - state.offset, 4nat,
{
    match unary_sign_at(state) {
        Err(e) => Err(e),
        Ok((_, op, s1)) => if !state.leads_to(s1) {
            arbitrary()
        } else {
            match crate::combinators::syntax_in_expr_of(loc_expr_at(min_indent, s1)) {
                Ok((_, operand, end)) => Ok(
                    (
                        Progress::MadeProgress,
                        Expr::UnaryOp(&operand, Located { region: s1.span_from(state), value: op }),
                        end,
                    ),
                ),
                Err((_, e, s)) => Err((Progress::MadeProgress, e, s)),
            }
        },
    }
}

#[verifier::opaque]
pub open spec fn unary_op_at<'a>(min_indent: u16, state: State<'a>) -> ParseResult<
    'a,
    Expr<'a>,
    SyntaxError<'a>,
>
    decreases state.input@.len() - state.offset, 5nat,
{
    crate::combinators::expr_error_of(unary_op_help_at(min_indent, state))
}

/// Reads a unary operator and the expression it applies to: `!x` or `-x`.
pub fn unary_op<'a>(min_indent: u16, arena: &'a Arena, state: State<'a>) -> (r: ParseResult<
    'a,
    Expr<'a>,
    SyntaxError<'a>,
>)
    requires
        state.wf(),
    ensures
        r == unary_op_at(min_indent, state),
        moves_on(r, state),
        (r matches Err((p, _, _)) && p is NoProgress) <==> !at_unary_not(state) && !at_unary_negate(
            state,
        ),
        r matches Ok((p, e, s)) ==> p is MadeProgress && expr_in(e, s.span_from(state)) && e is UnaryOp
            && (e->UnaryOp_1.value is Not <==> state.at_byte(BANG)),
    decreases state.input@.len() - state.offset, 5nat,
{
    reveal_with_fuel(crate::expr::unary_op_at, 1);
    reveal_with_fuel(crate::expr::unary_op_help_at, 1);
    expr_error(unary_op_help(min_indent, arena, state))
}

pub fn unary_op_help<'a>(min_indent: u16, arena: &'a Arena, state: State<'a>) -> (r: ParseResult<
    'a,
    Expr<'a>,
    EExpr<'a>,
>)
    requires
        state.wf(),
    ensures
        r == unary_op_help_at(min_indent, state),
        moves_on(r, state),
        (r matches Err((p, _, _)) && p is NoProgress) <==> !at_unary_not(state) && !at_unary_negate(
            state,
        ),
        r matches Ok((p, e, s)) ==> p is MadeProgress && expr_in(e, s.span_from(state)) && e is UnaryOp
            && (e->UnaryOp_1.value is Not <==> state.at_byte(BANG)),
    decreases state.input@.len() - state.offset, 4nat,
{
    reveal_with_fuel(crate::expr::unary_op_help_at, 1);
    reveal_with_fuel(crate::expr::loc_expr_at, 1);
    let (op, s1) = match crate::combinators::one_of(not_sign, negate_sign, state) {
        Ok((_, op, s)) => (op, s),
        Err(e) => {
            return Err(e);
        },
    };
    let loc_op = located(&state, &s1, op);
    match syntax_in_expr(arena, loc_expr(min_indent, arena, s1)) {
        Ok((_, operand, end)) => {
            let e = Expr::UnaryOp(alloc_in(arena, operand), loc_op);
            assert(expr_in(e, end.span_from(state)));
            Ok((Progress::MadeProgress, e, end))
        },
        Err((_, e, s)) => Err((Progress::MadeProgress, e, s)),
    }
}

// ---- expressions ----

/// Something that an expression can begin with stands at the cursor: an
/// opening parenthesis, bracket or brace, a quote, a number, a backslash,
/// a unary operator, `when`, `if`, or an identifier.
pub open spec fn at_expr_start(state: State) -> bool {
    ||| state.at_byte(OPEN_PAREN)
    ||| state.at_byte(QUOTE)
    ||| crate::literal::at_number(state)
    ||| state.at_byte(crate::literal::BACKSLASH)
    ||| state.at_byte(crate::type_annotation::OPEN_BRACE)
    ||| state.at_byte(OPEN_BRACKET)
    ||| at_unary_not(state)
    ||| at_unary_negate(state)
    ||| crate::state::at_keyword(state, crate::state::word_when())
    ||| crate::state::at_keyword(state, crate::state::word_if())
    ||| crate::ident::at_ident(state)
}

/// What reading an expression comes to.
#[verifier::opaque]
pub open spec fn expr_at<'a>(min_indent: u16, state: State<'a>) -> ParseResult<
    'a,
    Expr<'a>,
    SyntaxError<'a>,
>
    decreases state.input@.len() - state.offset, 13nat,
{
    parse_expr_at(min_indent, state)
}

/// What reading an expression and locating it comes to.
#[verifier::opaque]
pub open spec fn loc_expr_at<'a>(min_indent: u16, state: State<'a>) -> ParseResult<
    'a,
    Located<Expr<'a>>,
    SyntaxError<'a>,
>
    decreases state.input@.len() - state.offset, 12nat,
{
    crate::combinators::locate_of(state, parse_expr_at(min_indent, state))
}

/// An arrow `->` stands at the cursor.
pub open spec fn at_arrow(state: State) -> bool {
    state.at_word(seq![MINUS, GREATER])
}

/// What reading an expression comes to: an expression without operators,
/// and then, if white space and a binary operator follow, the operator
/// and the expression to its right. An arrow ends the expression: its `-`
/// is not read as an operator.
#[verifier::opaque]
pub open spec fn parse_expr_at<'a>(min_indent: u16, state: State<'a>) -> ParseResult<
    'a,
    Expr<'a>,
    SyntaxError<'a>,
>
    decreases state.input@.len() - state.offset, 11nat,
{
    match body_without_operators_at(min_indent, state) {
        Err(e) => Err(e),
        Ok((_, left, s1)) => match spaces_at(false, min_indent, s1) {
            Err(_) => Ok((Progress::MadeProgress, left.value, s1)),
            Ok((_, spaces_before_op, s2)) => match (if at_arrow(s2) {
                None
            } else {
                binop_value(s2)
            }) {
                None => Ok((Progress::MadeProgress, left.value, s1)),
                Some((op, s3)) => match spaces_at(false, min_indent, s3) {
                    Err((_, problem, s)) => Err(
                        (
                            Progress::MadeProgress,
                            SyntaxError::Expr(
                                EExpr::space_of(problem, EExpr::IndentEnd(s.line, s.column), s),
                            ),
                            s,
                        ),
                    ),
                    Ok((_, spaces_after_op, s4)) => if !state.leads_to(s4) {
                        arbitrary()
                    } else {
                        match loc_expr_at(min_indent, s4) {
                            Err((_, e, s)) => Err((Progress::MadeProgress, e, s)),
                            Ok((_, right, s5)) => Ok(
                                (
                                    Progress::MadeProgress,
                                    Expr::BinOp(
                                        &(
                                            spaced_after(spaces_before_op, left),
                                            Located { region: s3.span_from(s2), value: op },
                                            spaced_before(spaces_after_op, right),
                                        ),
                                    ),
                                    s5,
                                ),
                            ),
                        }
                    },
                },
            },
        },
    }
}

/// `second` if `first` gives way, and `first` if it does not.
pub open spec fn either<'a, T, E>(
    first: ParseResult<'a, T, E>,
    second: ParseResult<'a, T, E>,
) -> ParseResult<'a, T, E> {
    if gives_way(first) {
        second
    } else {
        first
    }
}

/// What reading an expression without operators comes to: the first of
/// the alternatives, in their order, that does not fail without progress.
#[verifier::opaque]
pub open spec fn body_without_operators_at<'a>(min_indent: u16, state: State<'a>) -> ParseResult<
    'a,
    Located<Expr<'a>>,
    SyntaxError<'a>,
>
    decreases state.input@.len() - state.offset, 10nat,
{
    either(
        loc_expr_in_parens_etc_at(min_indent, state),
        either(
            crate::combinators::locate_of(state, string_literal_expr_at(state)),
            either(
                crate::combinators::locate_of(state, number_literal_expr_at(state)),
                either(
                    crate::combinators::locate_of(
                        state,
                        crate::closure::closure_at(min_indent, state),
                    ),
                    either(
                        crate::combinators::locate_of(
                            state,
                            crate::record::record_literal_at(min_indent, state),
                        ),
                        either(
                            crate::combinators::locate_of(
                                state,
                                list_literal_at(min_indent, state),
                            ),
                            either(
                                crate::combinators::locate_of(
                                    state,
                                    unary_op_at(min_indent, state),
                                ),
                                either(
                                    crate::combinators::locate_of(
                                        state,
                                        crate::when::expr_at(min_indent, state),
                                    ),
                                    either(
                                        crate::combinators::locate_of(
                                            state,
                                            crate::conditional::if_expr_at(min_indent, state),
                                        ),
                                        either(
                                            crate::combinators::locate_of(
                                                state,
                                                crate::ident_expr::ident_etc_at(min_indent, state),
                                            ),
                                            Err(
                                                (
                                                    Progress::NoProgress,
                                                    SyntaxError::Expr(
                                                        EExpr::Start(state.line, state.column),
                                                    ),
                                                    state,
                                                ),
                                            ),
                                        ),
                                    ),
                                ),
                            ),
                        ),
                    ),
                ),
            ),
        ),
    )
}

/// Reads an expression.
pub fn expr<'a>(min_indent: u16, arena: &'a Arena, state: State<'a>) -> (r: ParseResult<
    'a,
    Expr<'a>,
    SyntaxError<'a>,
>)
    requires
        state.wf(),
    ensures
        r == expr_at(min_indent, state),
        moves_on(r, state),
        gives_way(r) <==> !at_expr_start(state),
        r matches Ok((p, e, s)) ==> p is MadeProgress && expr_in(e, s.span_from(state)),
        r matches Err((p, e, _)) ==> (p is NoProgress ==> e == SyntaxError::Expr(
            EExpr::Start(state.line, state.column),
        )),
    decreases state.input@.len() - state.offset, 13nat,
{
    reveal_with_fuel(crate::expr::expr_at, 1);
    reveal_with_fuel(crate::expr::parse_expr_at, 1);
    parse_expr(min_indent, arena, state)
}

/// Reads an expression and locates it: its region runs from the cursor
/// given to the cursor handed back.
pub fn loc_expr<'a>(min_indent: u16, arena: &'a Arena, state: State<'a>) -> (r: ParseResult<
    'a,
    Located<Expr<'a>>,
    SyntaxError<'a>,
>)
    requires
        state.wf(),
    ensures
        r == loc_expr_at(min_indent, state),
        moves_on(r, state),
        gives_way(r) <==> !at_expr_start(state),
        r matches Ok((p, e, s)) ==> p is MadeProgress && e.region == s.span_from(state)
            && loc_expr_in(e, s.span_from(state)),
        r matches Err((p, e, _)) ==> (p is NoProgress ==> e == SyntaxError::Expr(
            EExpr::Start(state.line, state.column),
        )),
    decreases state.input@.len() - state.offset, 12nat,
{
    reveal_with_fuel(crate::expr::loc_expr_at, 1);
    reveal_with_fuel(crate::expr::parse_expr_at, 1);
    match parse_expr(min_indent, arena, state) {
        Ok((p, e, s)) => Ok((p, located(&state, &s, e), s)),
        Err(e) => Err(e),
    }
}

/// Reads an expression: one without operators, and then, if white space
/// and a binary operator follow, the operator and the expression to its
/// right. The white space before the operator belongs to the expression on
/// the left, the white space after it to the expression on the right.
/// Operators are not weighed against each other: `a + b * c` is `a`, `+`
/// and `b * c`.
///
/// White space that no operator follows is left unread, and so is an
/// arrow `->`, whose `-` is no operator here: it ends the guard of a
/// branch or the parameters of a closure.
pub fn parse_expr<'a>(min_indent: u16, arena: &'a Arena, state: State<'a>) -> (r: ParseResult<
    'a,
    Expr<'a>,
    SyntaxError<'a>,
>)
    requires
        state.wf(),
    ensures
        r == parse_expr_at(min_indent, state),
        moves_on(r, state),
        gives_way(r) <==> !at_expr_start(state),
        r matches Ok((p, e, s)) ==> p is MadeProgress && expr_in(e, s.span_from(state)),
        r matches Err((p, e, _)) ==> (p is NoProgress ==> e == SyntaxError::Expr(
            EExpr::Start(state.line, state.column),
        )),
    decreases state.input@.len() - state.offset, 11nat,
{
    reveal_with_fuel(crate::expr::parse_expr_at, 1);
    reveal_with_fuel(crate::expr::body_without_operators_at, 1);
    reveal_with_fuel(crate::expr::loc_expr_at, 1);
    let (_, left, s1) = match loc_parse_expr_body_without_operators(min_indent, arena, state) {
        Ok(ok) => ok,
        Err(e) => {
            return Err(e);
        },
    };
    proof {
        lemma_expr_widen(left.value, left.region, s1.span_from(state));
    }
    let (spaces_before_op, s2) = match space0(min_indent, arena, s1) {
        Ok((_, spaces, s)) => (spaces, s),
        Err(_) => {
            return Ok((Progress::MadeProgress, left.value, s1));
        },
    };
    // An arrow belongs to what the expression stands in.
    if s2.word2(MINUS, GREATER).is_some() {
        return Ok((Progress::MadeProgress, left.value, s1));
    }
    let (op, s3) = match binop(s2) {
        Some(found) => found,
        None => {
            return Ok((Progress::MadeProgress, left.value, s1));
        },
    };
    let loc_op = located(&s2, &s3, op);
    let (_, spaces_after_op, s4) = match space0(min_indent, arena, s3) {
        Ok(ok) => ok,
        Err((_, problem, s)) => {
            return Err(
                (
                    Progress::MadeProgress,
                    SyntaxError::Expr(
                        EExpr::space(problem, EExpr::IndentEnd(s.line, s.column), &s),
                    ),
                    s,
                ),
            );
        },
    };
    let (_, right, s5) = match loc_expr(min_indent, arena, s4) {
        Ok(ok) => ok,
        Err((_, e, s)) => {
            return Err((Progress::MadeProgress, e, s));
        },
    };
    let right = with_spaces_before(arena, spaces_after_op, right);
    let left = with_spaces_after(arena, spaces_before_op, left);
    let e = Expr::BinOp(alloc_in(arena, (left, loc_op, right)));
    assert(expr_in(e, s5.span_from(state)));
    Ok((Progress::MadeProgress, e, s5))
}

/// Reads an expression without operators. It is, in this order of
/// precedence: an expression in parentheses with what may follow it, a
/// string, a number, a closure, a record with what may follow it, a list,
/// a unary operator with its operand, a `when`, an `if`, or an identifier
/// with what may follow it. Each of them is tried only if all before it
/// failed without progress; where none begins, the failure says that an
/// expression was expected here.
pub fn loc_parse_expr_body_without_operators<'a>(
    min_indent: u16,
    arena: &'a Arena,
    state: State<'a>,
) -> (r: ParseResult<'a, Located<Expr<'a>>, SyntaxError<'a>>)
    requires
        state.wf(),
    ensures
        r == body_without_operators_at(min_indent, state),
        moves_on(r, state),
        gives_way(r) <==> !at_expr_start(state),
        r matches Ok((p, e, s)) ==> p is MadeProgress && loc_expr_in(e, s.span_from(state)),
        r matches Err((p, e, _)) ==> (p is NoProgress ==> e == SyntaxError::Expr(
            EExpr::Start(state.line, state.column),
        )),
    decreases state.input@.len() - state.offset, 10nat,
{
    reveal_with_fuel(crate::expr::body_without_operators_at, 1);
    reveal_with_fuel(crate::expr::loc_expr_in_parens_etc_at, 1);
    reveal_with_fuel(crate::closure::closure_at, 1);
    reveal_with_fuel(crate::record::record_literal_at, 1);
    reveal_with_fuel(crate::expr::list_literal_at, 1);
    reveal_with_fuel(crate::expr::unary_op_at, 1);
    reveal_with_fuel(crate::when::expr_at, 1);
    reveal_with_fuel(crate::conditional::if_expr_at, 1);
    reveal_with_fuel(crate::ident_expr::ident_etc_at, 1);
    let r = loc_expr_in_parens_etc(min_indent, arena, state);
    let a_string = |s: State<'a>| -> (r: ParseResult<'a, Located<Expr<'a>>, SyntaxError<'a>>)
        requires
            s == state,
        ensures
            r == crate::combinators::locate_of(s, string_literal_expr_at(s)),
            reads_located_expr(r, s),
            gives_way(r) <==> !s.at_byte(QUOTE),
        {
            let read = string_literal_expr(arena, s);
            proof {
                if let Ok((_, e, end)) = read {
                    assert(expr_in(e, end.span_from(s)));
                }
            }
            locate(s, read)
        };
    let r = or_else(r, a_string, state);
    let a_number = |s: State<'a>| -> (r: ParseResult<'a, Located<Expr<'a>>, SyntaxError<'a>>)
        requires
            s == state,
        ensures
            r == crate::combinators::locate_of(s, number_literal_expr_at(s)),
            reads_located_expr(r, s),
            gives_way(r) <==> !crate::literal::at_number(s),
        {
            let read = number_literal_expr(s);
            proof {
                if let Ok((_, e, end)) = read {
                    assert(expr_in(e, end.span_from(s)));
                }
            }
            locate(s, read)
        };
    let r = or_else(r, a_number, state);
    let a_closure = |s: State<'a>| -> (r: ParseResult<'a, Located<Expr<'a>>, SyntaxError<'a>>)
        requires
            s == state,
        ensures
            r == crate::combinators::locate_of(s, crate::closure::closure_at(min_indent, s)),
            reads_located_expr(r, s),
            gives_way(r) <==> !s.at_byte(crate::literal::BACKSLASH),
        { locate(s, crate::closure::closure(min_indent, arena, s)) };
    let r = or_else(r, a_closure, state);
    let a_record = |s: State<'a>| -> (r: ParseResult<'a, Located<Expr<'a>>, SyntaxError<'a>>)
        requires
            s == state,
        ensures
            r == crate::combinators::locate_of(s, crate::record::record_literal_at(min_indent, s)),
            reads_located_expr(r, s),
            gives_way(r) <==> !s.at_byte(crate::type_annotation::OPEN_BRACE),
        { locate(s, crate::record::record_literal(min_indent, arena, s)) };
    let r = or_else(r, a_record, state);
    let a_list = |s: State<'a>| -> (r: ParseResult<'a, Located<Expr<'a>>, SyntaxError<'a>>)
        requires
            s == state,
        ensures
            r == crate::combinators::locate_of(s, list_literal_at(min_indent, s)),
            reads_located_expr(r, s),
            gives_way(r) <==> !s.at_byte(OPEN_BRACKET),
        { locate(s, list_literal(min_indent, arena, s)) };
    let r = or_else(r, a_list, state);
    let a_unary_op = |s: State<'a>| -> (r: ParseResult<'a, Located<Expr<'a>>, SyntaxError<'a>>)
        requires
            s == state,
        ensures
            r == crate::combinators::locate_of(s, unary_op_at(min_indent, s)),
            reads_located_expr(r, s),
            gives_way(r) <==> !at_unary_not(s) && !at_unary_negate(s),
        { locate(s, unary_op(min_indent, arena, s)) };
    let r = or_else(r, a_unary_op, state);
    let a_when = |s: State<'a>| -> (r: ParseResult<'a, Located<Expr<'a>>, SyntaxError<'a>>)
        requires
            s == state,
        ensures
            r == crate::combinators::locate_of(s, crate::when::expr_at(min_indent, s)),
            reads_located_expr(r, s),
            gives_way(r) <==> !crate::state::at_keyword(s, crate::state::word_when()),
        { locate(s, crate::when::expr(min_indent, arena, s)) };
    let r = or_else(r, a_when, state);
    let an_if = |s: State<'a>| -> (r: ParseResult<'a, Located<Expr<'a>>, SyntaxError<'a>>)
        requires
            s == state,
        ensures
            r == crate::combinators::locate_of(s, crate::conditional::if_expr_at(min_indent, s)),
            reads_located_expr(r, s),
            gives_way(r) <==> !crate::state::at_keyword(s, crate::state::word_if()),
        { locate(s, crate::conditional::if_expr(min_indent, arena, s)) };
    let r = or_else(r, an_if, state);
    let an_identifier = |s: State<'a>| -> (r: ParseResult<'a, Located<Expr<'a>>, SyntaxError<'a>>)
        requires
            s == state,
        ensures
            r == crate::combinators::locate_of(s, crate::ident_expr::ident_etc_at(min_indent, s)),
            reads_located_expr(r, s),
            gives_way(r) <==> !crate::ident::at_ident(s),
        { locate(s, crate::ident_expr::ident_etc(min_indent, arena, s)) };
    let r = or_else(r, an_identifier, state);
    let nothing = |s: State<'a>| -> (r: ParseResult<'a, Located<Expr<'a>>, SyntaxError<'a>>)
        requires
            s == state,
        ensures
            r == Err::<(Progress, Located<Expr<'a>>, State<'a>), _>(
                (Progress::NoProgress, SyntaxError::Expr(EExpr::Start(s.line, s.column)), s),
            ),
        { fail_expr_start(s) };
    or_else(r, nothing, state)
}

// ---- parentheses ----

/// What reading an expression in parentheses comes to.
#[verifier::opaque]
pub open spec fn loc_expr_in_parens_help_at<'a>(min_indent: u16, state: State<'a>) -> ParseResult<
    'a,
    Located<Expr<'a>>,
    EInParens<'a>,
>
    decreases state.input@.len() - state.offset, 3nat,
{
    match state.spec_word1(OPEN_PAREN) {
        None => Err((Progress::NoProgress, EInParens::Open(state.line, state.column), state)),
        Some(s1) => match spaces_at(false, min_indent, s1) {
            Err((_, problem, s)) => Err(
                (
                    Progress::MadeProgress,
                    EInParens::space_of(problem, EInParens::IndentOpen(s.line, s.column), s),
                    s,
                ),
            ),
            Ok((_, spaces_before, s2)) => if !state.leads_to(s2) {
                arbitrary()
            } else {
                match crate::combinators::syntax_in_parens_of(loc_expr_at(min_indent, s2)) {
                    Err((_, e, s)) => Err((Progress::MadeProgress, e, s)),
                    Ok((_, inner, s3)) => match spaces_at(false, min_indent, s3) {
                        Err((_, problem, s)) => Err(
                            (
                                Progress::MadeProgress,
                                EInParens::space_of(
                                    problem,
                                    EInParens::IndentEnd(s.line, s.column),
                                    s,
                                ),
                                s,
                            ),
                        ),
                        Ok((_, spaces_after, s4)) => match s4.spec_word1(CLOSE_PAREN) {
                            None => Err(
                                (Progress::MadeProgress, EInParens::End(s4.line, s4.column), s4),
                            ),
                            Some(end) => Ok(
                                (
                                    Progress::MadeProgress,
                                    Located {
                                        region: inner.region,
                                        value: Expr::ParensAround(
                                            &spaced_after(
                                                spaces_after,
                                                spaced_before(spaces_before, inner),
                                            ).value,
                                        ),
                                    },
                                    end,
                                ),
                            ),
                        },
                    },
                }
            },
        },
    }
}

/// What reading an argument in parentheses, with the fields read from
/// it, comes to.
#[verifier::opaque]
pub open spec fn loc_function_arg_in_parens_etc_help_at<'a>(
    min_indent: u16,
    state: State<'a>,
) -> ParseResult<'a, Located<Expr<'a>>, EExpr<'a>>
    decreases state.input@.len() - state.offset, 4nat,
{
    match loc_expr_in_parens_help_at(min_indent, state) {
        Err((p, e, s)) => Err((p, EExpr::InParens(e, state.line, state.column), s)),
        Ok((_, in_parens, s1)) => match record_field_access_chain_at(s1) {
            Ok((_, fields, end)) => Ok(
                (
                    Progress::MadeProgress,
                    Located {
                        region: in_parens.region,
                        value: crate::to_pattern::access_chain(in_parens.value, fields),
                    },
                    end,
                ),
            ),
            Err(_) => Ok((Progress::MadeProgress, in_parens, s1)),
        },
    }
}

#[verifier::opaque]
pub open spec fn loc_function_arg_in_parens_etc_at<'a>(
    min_indent: u16,
    state: State<'a>,
) -> ParseResult<'a, Located<Expr<'a>>, SyntaxError<'a>>
    decreases state.input@.len() - state.offset, 5nat,
{
    crate::combinators::expr_error_of(loc_function_arg_in_parens_etc_help_at(min_indent, state))
}

/// What reading an expression in parentheses with what may follow it
/// comes to.
#[verifier::opaque]
pub open spec fn loc_expr_in_parens_etc_help_at<'a>(
    min_indent: u16,
    state: State<'a>,
) -> ParseResult<'a, Located<Expr<'a>>, EExpr<'a>>
    decreases state.input@.len() - state.offset, 4nat,
{
    match loc_expr_in_parens_help_at(min_indent, state) {
        Err((p, e, s)) => Err((p, EExpr::InParens(e, state.line, state.column), s)),
        Ok((_, in_parens, s1)) => if !state.leads_to(s1) {
            arbitrary()
        } else {
            match loc_function_args_help_at(min_indent, s1) {
                Err((_, e, s)) => Err((Progress::MadeProgress, e, s)),
                Ok((_, args, s2)) => if !(args is Nil) {
                    Ok(
                        (
                            Progress::MadeProgress,
                            Located {
                                region: s2.span_from(state),
                                value: Expr::Apply(&in_parens, args, CalledVia::Space),
                            },
                            s2,
                        ),
                    )
                } else {
                    match record_field_access_chain_at(s1) {
                        Ok((_, fields, end)) => Ok(
                            (
                                Progress::MadeProgress,
                                Located {
                                    region: in_parens.region,
                                    value: crate::to_pattern::access_chain(in_parens.value, fields),
                                },
                                end,
                            ),
                        ),
                        Err(_) => match spaces_at(false, min_indent, s1) {
                            Err(_) => Ok((Progress::MadeProgress, in_parens, s1)),
                            Ok((_, spaces, s3)) => match equals_with_indent_help_at(s3) {
                                Err(_) => Ok((Progress::MadeProgress, in_parens, s1)),
                                Ok((_, indent, s4)) => if !state.leads_to(s4) {
                                    arbitrary()
                                } else {
                                    match expr_in_parens_then_equals_help_at(
                                        min_indent,
                                        Located {
                                            region: s1.span_from(state),
                                            value: in_parens.value,
                                        },
                                        spaces,
                                        indent,
                                        s1.span_from(state).start_col,
                                        s4,
                                    ) {
                                        Ok((_, e, end)) => Ok((Progress::MadeProgress, e, end)),
                                        Err((_, e, s)) => Err((Progress::MadeProgress, e, s)),
                                    }
                                },
                            },
                        },
                    }
                },
            }
        },
    }
}

#[verifier::opaque]
pub open spec fn loc_expr_in_parens_etc_at<'a>(min_indent: u16, state: State<'a>) -> ParseResult<
    'a,
    Located<Expr<'a>>,
    SyntaxError<'a>,
>
    decreases state.input@.len() - state.offset, 5nat,
{
    crate::combinators::expr_error_of(loc_expr_in_parens_etc_help_at(min_indent, state))
}

/// What reading the rest of a block of definitions whose first pattern
/// stood in parentheses comes to.
#[verifier::opaque]
pub open spec fn expr_in_parens_then_equals_help_at<'a>(
    min_indent: u16,
    loc_expr: Located<Expr<'a>>,
    spaces_before_equals: &'a [CommentOrNewline<'a>],
    equals_indent: u16,
    def_start_col: u16,
    state: State<'a>,
) -> ParseResult<'a, Located<Expr<'a>>, EExpr<'a>>
    decreases state.input@.len() - state.offset, 15nat,
{
    match crate::to_pattern::pattern_of_expr(loc_expr.value) {
        None => Err(
            (
                Progress::MadeProgress,
                EExpr::Syntax(&SyntaxError::InvalidPattern, state.line, state.column),
                state,
            ),
        ),
        Some(bound) => match spaces_at(false, min_indent, state) {
            Err((_, problem, s)) => Err(
                (
                    Progress::MadeProgress,
                    EExpr::space_of(problem, EExpr::IndentDefBody(s.line, s.column), s),
                    s,
                ),
            ),
            Ok((_, spaces_after_equals, s1)) => if !state.reaches(s1) {
                arbitrary()
            } else {
                match crate::def::parse_def_expr_help_at(
                    min_indent,
                    def_start_col,
                    equals_indent,
                    s1,
                    crate::pattern::pattern_spaced_after(
                        spaces_before_equals,
                        Located { region: loc_expr.region, value: bound },
                    ),
                    spaces_after_equals,
                ) {
                    Ok((_, parsed, end)) => Ok(
                        (
                            Progress::MadeProgress,
                            Located {
                                region: Region::between(loc_expr.region.start(), end.position()),
                                value: parsed,
                            },
                            end,
                        ),
                    ),
                    Err((_, e, s)) => Err((Progress::MadeProgress, e, s)),
                }
            },
        },
    }
}

/// Reads an expression in parentheses, with white space allowed inside
/// them. What is handed back is the expression, wrapped to say that it
/// stood in parentheses, in the region of the expression itself.
pub fn loc_expr_in_parens_help<'a>(min_indent: u16, arena: &'a Arena, state: State<'a>) -> (r:
    ParseResult<'a, Located<Expr<'a>>, EInParens<'a>>)
    requires
        state.wf(),
    ensures
        r == loc_expr_in_parens_help_at(min_indent, state),
        moves_on(r, state),
        (r matches Err((p, _, _)) && p is NoProgress) <==> !state.at_byte(OPEN_PAREN),
        r matches Ok((p, e, s)) ==> p is MadeProgress && loc_expr_in(e, s.span_from(state))
            && e.value is ParensAround,
        r matches Err((p, e, _)) ==> (p is NoProgress ==> e == EInParens::Open(
            state.line,
            state.column,
        )),
    decreases state.input@.len() - state.offset, 3nat,
{
    reveal_with_fuel(crate::expr::loc_expr_in_parens_help_at, 1);
    reveal_with_fuel(crate::expr::loc_expr_at, 1);
    let s1 = match state.word1(OPEN_PAREN) {
        Some(s) => s,
        None => {
            return Err(
                (Progress::NoProgress, EInParens::Open(state.line, state.column), state),
            );
        },
    };
    let (_, spaces_before, s2) = match space0(min_indent, arena, s1) {
        Ok(ok) => ok,
        Err((_, problem, s)) => {
            return Err(
                (
                    Progress::MadeProgress,
                    EInParens::space(problem, EInParens::IndentOpen(s.line, s.column), &s),
                    s,
                ),
            );
        },
    };
    let (_, inner, s3) = match syntax_in_parens(arena, loc_expr(min_indent, arena, s2)) {
        Ok(ok) => ok,
        Err((_, e, s)) => {
            return Err((Progress::MadeProgress, e, s));
        },
    };
    let (_, spaces_after, s4) = match space0(min_indent, arena, s3) {
        Ok(ok) => ok,
        Err((_, problem, s)) => {
            return Err(
                (
                    Progress::MadeProgress,
                    EInParens::space(problem, EInParens::IndentEnd(s.line, s.column), &s),
                    s,
                ),
            );
        },
    };
    let end = match s4.word1(CLOSE_PAREN) {
        Some(s) => s,
        None => {
            return Err((Progress::MadeProgress, EInParens::End(s4.line, s4.column), s4));
        },
    };
    let inner = with_spaces_after(arena, spaces_after, with_spaces_before(arena, spaces_before, inner));
    let e = Expr::ParensAround(alloc_in(arena, inner.value));
    assert(expr_in(e, inner.region));
    Ok((Progress::MadeProgress, Located { region: inner.region, value: e }, end))
}

/// Reads an expression in parentheses that is an argument of a function,
/// with the fields that may be read from it: `(foo).bar`.
pub fn loc_function_arg_in_parens_etc<'a>(
    min_indent: u16,
    arena: &'a Arena,
    state: State<'a>,
) -> (r: ParseResult<'a, Located<Expr<'a>>, SyntaxError<'a>>)
    requires
        state.wf(),
    ensures
        r == loc_function_arg_in_parens_etc_at(min_indent, state),
        moves_on(r, state),
        (r matches Err((p, _, _)) && p is NoProgress) <==> !state.at_byte(OPEN_PAREN),
        r matches Ok((p, e, s)) ==> p is MadeProgress && loc_expr_in(e, s.span_from(state)),
    decreases state.input@.len() - state.offset, 5nat,
{
    reveal_with_fuel(crate::expr::loc_function_arg_in_parens_etc_at, 1);
    reveal_with_fuel(crate::expr::loc_function_arg_in_parens_etc_help_at, 1);
    expr_error(loc_function_arg_in_parens_etc_help(min_indent, arena, state))
}

pub fn loc_function_arg_in_parens_etc_help<'a>(
    min_indent: u16,
    arena: &'a Arena,
    state: State<'a>,
) -> (r: ParseResult<'a, Located<Expr<'a>>, EExpr<'a>>)
    requires
        state.wf(),
    ensures
        r == loc_function_arg_in_parens_etc_help_at(min_indent, state),
        moves_on(r, state),
        (r matches Err((p, _, _)) && p is NoProgress) <==> !state.at_byte(OPEN_PAREN),
        r matches Ok((p, e, s)) ==> p is MadeProgress && loc_expr_in(e, s.span_from(state)),
    decreases state.input@.len() - state.offset, 4nat,
{
    reveal_with_fuel(crate::expr::loc_function_arg_in_parens_etc_help_at, 1);
    reveal_with_fuel(crate::expr::loc_expr_in_parens_help_at, 1);
    let (_, in_parens, s1) = match loc_expr_in_parens_help(min_indent, arena, state) {
        Ok(ok) => ok,
        Err((p, e, s)) => {
            return Err((p, EExpr::InParens(e, state.line, state.column), s));
        },
    };
    match record_field_access_chain(arena, s1) {
        Ok((_, fields, end)) => Ok(
            (Progress::MadeProgress, expr_in_parens_then_access(arena, in_parens, fields), end),
        ),
        Err(_) => Ok((Progress::MadeProgress, in_parens, s1)),
    }
}

/// Reads an expression in parentheses with what may follow it: arguments
/// that it is applied to, as in `(foo bar) baz`; or else fields that are
/// read from it, as in `(foo).bar`; or else white space and `=`, which
/// make what stood in the parentheses the pattern of a definition.
/// Without any of them, the expression in parentheses stands alone.
pub fn loc_expr_in_parens_etc<'a>(min_indent: u16, arena: &'a Arena, state: State<'a>) -> (r:
    ParseResult<'a, Located<Expr<'a>>, SyntaxError<'a>>)
    requires
        state.wf(),
    ensures
        r == loc_expr_in_parens_etc_at(min_indent, state),
        moves_on(r, state),
        (r matches Err((p, _, _)) && p is NoProgress) <==> !state.at_byte(OPEN_PAREN),
        r matches Ok((p, e, s)) ==> p is MadeProgress && loc_expr_in(e, s.span_from(state)),
    decreases state.input@.len() - state.offset, 5nat,
{
    reveal_with_fuel(crate::expr::loc_expr_in_parens_etc_at, 1);
    reveal_with_fuel(crate::expr::loc_expr_in_parens_etc_help_at, 1);
    expr_error(loc_expr_in_parens_etc_help(min_indent, arena, state))
}

#[verifier::rlimit(60)]
pub fn loc_expr_in_parens_etc_help<'a>(min_indent: u16, arena: &'a Arena, state: State<'a>) -> (r:
    ParseResult<'a, Located<Expr<'a>>, EExpr<'a>>)
    requires
        state.wf(),
    ensures
        r == loc_expr_in_parens_etc_help_at(min_indent, state),
        moves_on(r, state),
        (r matches Err((p, _, _)) && p is NoProgress) <==> !state.at_byte(OPEN_PAREN),
        r matches Ok((p, e, s)) ==> p is MadeProgress && loc_expr_in(e, s.span_from(state)),
    decreases state.input@.len() - state.offset, 4nat,
{
    reveal_with_fuel(crate::expr::loc_expr_in_parens_etc_help_at, 1);
    reveal_with_fuel(crate::expr::loc_expr_in_parens_help_at, 1);
    reveal_with_fuel(crate::expr::loc_function_args_help_at, 1);
    reveal_with_fuel(crate::expr::expr_in_parens_then_equals_help_at, 1);
    let (_, in_parens, s1) = match loc_expr_in_parens_help(min_indent, arena, state) {
        Ok(ok) => ok,
        Err((p, e, s)) => {
            return Err((p, EExpr::InParens(e, state.line, state.column), s));
        },
    };
    // There may be function arguments after the ')', as in ((foo bar) baz).
    let (_, args, s2) = match loc_function_args_help(min_indent, arena, s1) {
        Ok(ok) => ok,
        Err((_, e, s)) => {
            return Err((Progress::MadeProgress, e, s));
        },
    };
    if !args.is_empty() {
        proof {
            lemma_loc_exprs_widen(args, s2.span_from(s1), s2.span_from(state));
        }
        let region = s2.region_since(&state);
        return Ok(
            (
                Progress::MadeProgress,
                expr_in_parens_then_arguments(arena, in_parens, args, region),
                s2,
            ),
        );
    }
    // Without arguments, there may be a field access, as in (foo).bar.
    match record_field_access_chain(arena, s1) {
        Ok((_, fields, end)) => {
            return Ok(
                (
                    Progress::MadeProgress,
                    expr_in_parens_then_access(arena, in_parens, fields),
                    end,
                ),
            );
        },
        Err(_) => {},
    }
    // Or else an '=' after white space: what stood in the parentheses
    // was a pattern, and a block of definitions begins.
    let sign = match space0(min_indent, arena, s1) {
        Ok((_, spaces, s3)) => match equals_with_indent_help(s3) {
            Ok((_, indent, s4)) => Some((spaces, indent, s4)),
            Err(_) => None,
        },
        Err(_) => None,
    };
    match sign {
        Some((spaces_before_equals, equals_indent, s4)) => {
            let region = s1.region_since(&state);
            proof {
                lemma_expr_widen(in_parens.value, in_parens.region, region);
            }
            match expr_in_parens_then_equals_help(
                min_indent,
                Located { region, value: in_parens.value },
                spaces_before_equals,
                equals_indent,
                region.start_col,
                arena,
                s4,
            ) {
                Ok((_, e, end)) => Ok((Progress::MadeProgress, e, end)),
                Err((_, e, s)) => Err((Progress::MadeProgress, e, s)),
            }
        },
        None => Ok((Progress::MadeProgress, in_parens, s1)),
    }
}

/// Reads the rest of a block of definitions whose first definition binds
/// the pattern that stood in parentheses, from the cursor after the `=`.
/// `loc_expr` is what stood in the parentheses, read as an expression; it
/// is read again as a pattern, which fails with progress if it is none.
pub fn expr_in_parens_then_equals_help<'a>(
    min_indent: u16,
    loc_expr: Located<Expr<'a>>,
    spaces_before_equals: &'a [CommentOrNewline<'a>],
    equals_indent: u16,
    def_start_col: u16,
    arena: &'a Arena,
    state: State<'a>,
) -> (r: ParseResult<'a, Located<Expr<'a>>, EExpr<'a>>)
    requires
        state.wf(),
        loc_expr.region.valid(),
        expr_in(loc_expr.value, loc_expr.region),
        loc_expr.region.end().le(state.position()),
    ensures
        r == expr_in_parens_then_equals_help_at(
            min_indent,
            loc_expr,
            spaces_before_equals,
            equals_indent,
            def_start_col,
            state,
        ),
        moves_on(r, state),
        crate::to_pattern::pattern_of_expr(loc_expr.value) is None ==> r is Err,
        r matches Ok((p, e, s)) ==> p is MadeProgress && e.region == crate::def::block_region(
            loc_expr.region,
            s,
        ) && loc_expr_in(e, e.region) && e.value is Defs,
    decreases state.input@.len() - state.offset, 15nat,
{
    reveal_with_fuel(crate::expr::expr_in_parens_then_equals_help_at, 1);
    reveal_with_fuel(crate::def::parse_def_expr_help_at, 1);
    let region = loc_expr.region;
    // Read the expression again as a pattern.
    let bound = match crate::to_pattern::expr_to_pattern(arena, &loc_expr.value) {
        Ok(valid) => valid,
        Err(fail) => {
            return Err(
                (
                    Progress::MadeProgress,
                    EExpr::Syntax(alloc_in(arena, fail), state.line, state.column),
                    state,
                ),
            );
        },
    };
    proof {
        crate::to_pattern::lemma_pattern_of_expr_in(loc_expr.value, region);
    }
    // The spaces are kept: there might be comments in there.
    let loc_first_pattern = crate::pattern::pattern_with_spaces_after(
        arena,
        spaces_before_equals,
        Located { region, value: bound },
    );
    // Go on reading the expression as a block of definitions.
    let (_, spaces_after_equals, s1) = match space0(min_indent, arena, state) {
        Ok(ok) => ok,
        Err((_, problem, s)) => {
            return Err(
                (
                    Progress::MadeProgress,
                    EExpr::space(problem, EExpr::IndentDefBody(s.line, s.column), &s),
                    s,
                ),
            );
        },
    };
    match crate::def::parse_def_expr_help(
        min_indent,
        def_start_col,
        equals_indent,
        arena,
        s1,
        loc_first_pattern,
        spaces_after_equals,
    ) {
        Ok((_, parsed, end)) => {
            let whole = Region::from_positions(
                crate::region::Position::new(region.start_line, region.start_col),
                end.pos(),
            );
            Ok((Progress::MadeProgress, Located { region: whole, value: parsed }, end))
        },
        Err((_, e, s)) => Err((Progress::MadeProgress, e, s)),
    }
}

// ---- function arguments ----

/// What reading an argument that begins with a unary minus comes to.
#[verifier::opaque]
pub open spec fn unary_negate_function_arg_at<'a>(min_indent: u16, state: State<'a>) -> ParseResult<
    'a,
    Located<Expr<'a>>,
    SyntaxError<'a>,
>
    decreases state.input@.len() - state.offset, 11nat,
{
    match unary_negate_at(state) {
        Err((p, e, s)) => Err((p, SyntaxError::Expr(e), s)),
        Ok((_, _, s1)) => if !state.leads_to(s1) {
            arbitrary()
        } else {
            match loc_function_arg_at(min_indent, s1) {
                Ok((_, operand, end)) => Ok(
                    (
                        Progress::MadeProgress,
                        Located {
                            region: end.span_from(state),
                            value: Expr::UnaryOp(
                                &operand,
                                Located { region: s1.span_from(state), value: UnaryOp::Negate },
                            ),
                        },
                        end,
                    ),
                ),
                Err((_, e, s)) => Err((Progress::MadeProgress, e, s)),
            }
        },
    }
}

/// The arguments of a function at the cursor, as far as they go.
#[verifier::opaque]
pub open spec fn loc_function_args_at<'a>(min_indent: u16, state: State<'a>) -> ParseResult<
    'a,
    List<'a, Located<Expr<'a>>>,
    SyntaxError<'a>,
>
    decreases state.input@.len() - state.offset, 12nat,
{
    match spaces_at(true, min_indent, state) {
        Err(_) => Ok((Progress::NoProgress, List::Nil, state)),
        Ok((_, spaces, s1)) => if !state.leads_to(s1) {
            arbitrary()
        } else {
            match either(
                unary_negate_function_arg_at(min_indent, s1),
                loc_function_arg_at(min_indent, s1),
            ) {
                Err((Progress::MadeProgress, e, s)) => Err((Progress::MadeProgress, e, s)),
                Err((Progress::NoProgress, _, _)) => Ok((Progress::NoProgress, List::Nil, state)),
                Ok((_, arg, s2)) => if !state.leads_to(s2) {
                    arbitrary()
                } else {
                    match loc_function_args_at(min_indent, s2) {
                        Ok((_, rest, end)) => Ok(
                            (
                                Progress::MadeProgress,
                                List::Cons(&spaced_before(spaces, arg), &rest),
                                end,
                            ),
                        ),
                        Err(e) => Err(e),
                    }
                },
            }
        },
    }
}

#[verifier::opaque]
pub open spec fn loc_function_args_help_at<'a>(min_indent: u16, state: State<'a>) -> ParseResult<
    'a,
    List<'a, Located<Expr<'a>>>,
    EExpr<'a>,
>
    decreases state.input@.len() - state.offset, 13nat,
{
    crate::combinators::syntax_in_expr_of(loc_function_args_at(min_indent, state))
}

/// What reading one argument of a function comes to. A reserved word with
/// white space after it is no argument.
#[verifier::opaque]
pub open spec fn loc_function_arg_at<'a>(min_indent: u16, state: State<'a>) -> ParseResult<
    'a,
    Located<Expr<'a>>,
    SyntaxError<'a>,
>
    decreases state.input@.len() - state.offset, 10nat,
{
    if (reserved_keyword_at(state) matches Ok((_, _, after_word)) && spaces_at(
        true,
        min_indent,
        after_word,
    ) is Ok) {
        Err((Progress::NoProgress, SyntaxError::ConditionFailed, state))
    } else {
        loc_parse_function_arg_at(min_indent, state)
    }
}

/// What reading an expression that can be an argument comes to: the
/// first of the alternatives, in their order, that does not fail without
/// progress.
#[verifier::opaque]
pub open spec fn loc_parse_function_arg_at<'a>(min_indent: u16, state: State<'a>) -> ParseResult<
    'a,
    Located<Expr<'a>>,
    SyntaxError<'a>,
>
    decreases state.input@.len() - state.offset, 9nat,
{
    either(
        loc_function_arg_in_parens_etc_at(min_indent, state),
        either(
            crate::combinators::locate_of(state, string_literal_expr_at(state)),
            either(
                crate::combinators::locate_of(state, number_literal_expr_at(state)),
                either(
                    crate::combinators::locate_of(
                        state,
                        crate::closure::closure_at(min_indent, state),
                    ),
                    either(
                        crate::combinators::locate_of(
                            state,
                            crate::record::record_literal_at(min_indent, state),
                        ),
                        either(
                            crate::combinators::locate_of(
                                state,
                                list_literal_at(min_indent, state),
                            ),
                            either(
                                crate::combinators::locate_of(
                                    state,
                                    unary_op_at(min_indent, state),
                                ),
                                either(
                                    crate::combinators::locate_of(
                                        state,
                                        crate::when::expr_at(min_indent, state),
                                    ),
                                    either(
                                        crate::combinators::locate_of(
                                            state,
                                            crate::conditional::if_expr_at(min_indent, state),
                                        ),
                                        crate::combinators::locate_of(
                                            state,
                                            ident_without_apply_at(state),
                                        ),
                                    ),
                                ),
                            ),
                        ),
                    ),
                ),
            ),
        ),
    )
}

/// Reads an argument that begins with a unary minus: spaces, then `-`,
/// then no white space. The rules for `-` are these:
///
/// * `x - y`, `x-y` and `x- y` are all "x minus y";
/// * `x -y` is "call x, passing -y".
///
/// Operators bind tighter than function application, so a `-` is unary
/// exactly when spaces come before it and none after it.
pub fn unary_negate_function_arg<'a>(min_indent: u16, arena: &'a Arena, state: State<'a>) -> (r:
    ParseResult<'a, Located<Expr<'a>>, SyntaxError<'a>>)
    requires
        state.wf(),
    ensures
        r == unary_negate_function_arg_at(min_indent, state),
        moves_on(r, state),
        (r matches Err((p, _, _)) && p is NoProgress) <==> !at_unary_negate(state),
        r matches Ok((p, e, s)) ==> p is MadeProgress && loc_expr_in(e, s.span_from(state))
            && e.region == s.span_from(state) && (e.value matches Expr::UnaryOp(_, op)
            && op.value is Negate),
    decreases state.input@.len() - state.offset, 11nat,
{
    reveal_with_fuel(crate::expr::unary_negate_function_arg_at, 1);
    reveal_with_fuel(crate::expr::loc_function_arg_at, 1);
    let s1 = match unary_negate(state) {
        Ok((_, _, s)) => s,
        Err((p, e, s)) => {
            return Err((p, SyntaxError::Expr(e), s));
        },
    };
    let loc_op = located(&state, &s1, UnaryOp::Negate);
    // Continue parsing the function argument as normal.
    match loc_function_arg(min_indent, arena, s1) {
        Ok((_, operand, end)) => {
            // Start from where the unary operator started, and end where
            // its operand ended.
            let e = Expr::UnaryOp(alloc_in(arena, operand), loc_op);
            assert(expr_in(e, end.span_from(state)));
            Ok((Progress::MadeProgress, located(&state, &end, e), end))
        },
        Err((_, e, s)) => Err((Progress::MadeProgress, e, s)),
    }
}

/// Reads the arguments of a function, as far as they go: each is white
/// space and then an expression that can be an argument. White space that
/// no argument follows is left unread.
#[verifier::rlimit(60)]
pub fn loc_function_args<'a>(min_indent: u16, arena: &'a Arena, state: State<'a>) -> (r:
    ParseResult<'a, List<'a, Located<Expr<'a>>>, SyntaxError<'a>>)
    requires
        state.wf(),
    ensures
        r == loc_function_args_at(min_indent, state),
        moves_on(r, state),
        r matches Ok((p, args, s)) ==> loc_exprs_in(args, s.span_from(state)) && (args is Nil
            <==> p is NoProgress),
        r matches Err((p, _, _)) ==> p is MadeProgress,
    decreases state.input@.len() - state.offset, 12nat,
{
    reveal_with_fuel(crate::expr::loc_function_args_at, 1);
    reveal_with_fuel(crate::expr::unary_negate_function_arg_at, 1);
    reveal_with_fuel(crate::expr::loc_function_arg_at, 1);
    assert(loc_exprs_in(List::Nil, state.span_from(state)));
    let (spaces, s1) = match space1(min_indent, arena, state) {
        Ok((_, spaces, s)) => (spaces, s),
        Err(_) => {
            return Ok((Progress::NoProgress, List::Nil, state));
        },
    };
    let (arg, s2) = match unary_negate_function_arg(min_indent, arena, s1) {
        Ok((_, arg, s)) => (arg, s),
        Err((Progress::MadeProgress, e, s)) => {
            return Err((Progress::MadeProgress, e, s));
        },
        Err((Progress::NoProgress, _, _)) => match loc_function_arg(min_indent, arena, s1) {
            Ok((_, arg, s)) => (arg, s),
            Err((Progress::MadeProgress, e, s)) => {
                return Err((Progress::MadeProgress, e, s));
            },
            Err((Progress::NoProgress, _, _)) => {
                return Ok((Progress::NoProgress, List::Nil, state));
            },
        },
    };
    let arg = with_spaces_before(arena, spaces, arg);
    match loc_function_args(min_indent, arena, s2) {
        Ok((_, rest, end)) => {
            let args = List::cons(arena, arg, rest);
            proof {
                lemma_loc_exprs_widen(rest, end.span_from(s2), end.span_from(state));
                assert(loc_exprs_in(args, end.span_from(state)));
            }
            Ok((Progress::MadeProgress, args, end))
        },
        Err(e) => Err(e),
    }
}

pub fn loc_function_args_help<'a>(min_indent: u16, arena: &'a Arena, state: State<'a>) -> (r:
    ParseResult<'a, List<'a, Located<Expr<'a>>>, EExpr<'a>>)
    requires
        state.wf(),
    ensures
        r == loc_function_args_help_at(min_indent, state),
        moves_on(r, state),
        r matches Ok((p, args, s)) ==> loc_exprs_in(args, s.span_from(state)) && (args is Nil
            <==> p is NoProgress),
        r matches Err((p, _, _)) ==> p is MadeProgress,
    decreases state.input@.len() - state.offset, 13nat,
{
    reveal_with_fuel(crate::expr::loc_function_args_help_at, 1);
    reveal_with_fuel(crate::expr::loc_function_args_at, 1);
    syntax_in_expr(arena, loc_function_args(min_indent, arena, state))
}

/// Reads one argument of a function. A reserved word with white space
/// after it is no argument: it ends the arguments.
pub fn loc_function_arg<'a>(min_indent: u16, arena: &'a Arena, state: State<'a>) -> (r:
    ParseResult<'a, Located<Expr<'a>>, SyntaxError<'a>>)
    requires
        state.wf(),
    ensures
        r == loc_function_arg_at(min_indent, state),
        moves_on(r, state),
        r matches Ok((p, e, s)) ==> p is MadeProgress && loc_expr_in(e, s.span_from(state)),
    decreases state.input@.len() - state.offset, 10nat,
{
    reveal_with_fuel(crate::expr::loc_function_arg_at, 1);
    reveal_with_fuel(crate::expr::loc_parse_function_arg_at, 1);
    // The space is necessary: `ifBlah` and `isSomething` are arguments.
    match reserved_keyword(state) {
        Ok((_, _, after_word)) => match space1(min_indent, arena, after_word) {
            Ok(_) => {
                return Err((Progress::NoProgress, SyntaxError::ConditionFailed, state));
            },
            Err(_) => {},
        },
        Err(_) => {},
    }
    // Operators are not read here: they bind tighter than application.
    loc_parse_function_arg(min_indent, arena, state)
}

/// Reads an expression that can be an argument: like an expression
/// without operators, but an identifier takes no arguments of its own.
pub fn loc_parse_function_arg<'a>(min_indent: u16, arena: &'a Arena, state: State<'a>) -> (r:
    ParseResult<'a, Located<Expr<'a>>, SyntaxError<'a>>)
    requires
        state.wf(),
    ensures
        r == loc_parse_function_arg_at(min_indent, state),
        moves_on(r, state),
        gives_way(r) <==> !at_expr_start(state),
        r matches Ok((p, e, s)) ==> p is MadeProgress && loc_expr_in(e, s.span_from(state)),
    decreases state.input@.len() - state.offset, 9nat,
{
    reveal_with_fuel(crate::expr::loc_parse_function_arg_at, 1);
    reveal_with_fuel(crate::expr::loc_function_arg_in_parens_etc_at, 1);
    reveal_with_fuel(crate::closure::closure_at, 1);
    reveal_with_fuel(crate::record::record_literal_at, 1);
    reveal_with_fuel(crate::expr::list_literal_at, 1);
    reveal_with_fuel(crate::expr::unary_op_at, 1);
    reveal_with_fuel(crate::when::expr_at, 1);
    reveal_with_fuel(crate::conditional::if_expr_at, 1);
    let r = loc_function_arg_in_parens_etc(min_indent, arena, state);
    let a_string = |s: State<'a>| -> (r: ParseResult<'a, Located<Expr<'a>>, SyntaxError<'a>>)
        requires
            s == state,
        ensures
            r == crate::combinators::locate_of(s, string_literal_expr_at(s)),
            reads_located_expr(r, s),
            gives_way(r) <==> !s.at_byte(QUOTE),
        {
            let read = string_literal_expr(arena, s);
            proof {
                if let Ok((_, e, end)) = read {
                    assert(expr_in(e, end.span_from(s)));
                }
            }
            locate(s, read)
        };
    let r = or_else(r, a_string, state);
    let a_number = |s: State<'a>| -> (r: ParseResult<'a, Located<Expr<'a>>, SyntaxError<'a>>)
        requires
            s == state,
        ensures
            r == crate::combinators::locate_of(s, number_literal_expr_at(s)),
            reads_located_expr(r, s),
            gives_way(r) <==> !crate::literal::at_number(s),
        {
            let read = number_literal_expr(s);
            proof {
                if let Ok((_, e, end)) = read {
                    assert(expr_in(e, end.span_from(s)));
                }
            }
            locate(s, read)
        };
    let r = or_else(r, a_number, state);
    let a_closure = |s: State<'a>| -> (r: ParseResult<'a, Located<Expr<'a>>, SyntaxError<'a>>)
        requires
            s == state,
        ensures
            r == crate::combinators::locate_of(s, crate::closure::closure_at(min_indent, s)),
            reads_located_expr(r, s),
            gives_way(r) <==> !s.at_byte(crate::literal::BACKSLASH),
        { locate(s, crate::closure::closure(min_indent, arena, s)) };
    let r = or_else(r, a_closure, state);
    let a_record = |s: State<'a>| -> (r: ParseResult<'a, Located<Expr<'a>>, SyntaxError<'a>>)
        requires
            s == state,
        ensures
            r == crate::combinators::locate_of(s, crate::record::record_literal_at(min_indent, s)),
            reads_located_expr(r, s),
            gives_way(r) <==> !s.at_byte(crate::type_annotation::OPEN_BRACE),
        { locate(s, crate::record::record_literal(min_indent, arena, s)) };
    let r = or_else(r, a_record, state);
    let a_list = |s: State<'a>| -> (r: ParseResult<'a, Located<Expr<'a>>, SyntaxError<'a>>)
        requires
            s == state,
        ensures
            r == crate::combinators::locate_of(s, list_literal_at(min_indent, s)),
            reads_located_expr(r, s),
            gives_way(r) <==> !s.at_byte(OPEN_BRACKET),
        { locate(s, list_literal(min_indent, arena, s)) };
    let r = or_else(r, a_list, state);
    let a_unary_op = |s: State<'a>| -> (r: ParseResult<'a, Located<Expr<'a>>, SyntaxError<'a>>)
        requires
            s == state,
        ensures
            r == crate::combinators::locate_of(s, unary_op_at(min_indent, s)),
            reads_located_expr(r, s),
            gives_way(r) <==> !at_unary_not(s) && !at_unary_negate(s),
        { locate(s, unary_op(min_indent, arena, s)) };
    let r = or_else(r, a_unary_op, state);
    let a_when = |s: State<'a>| -> (r: ParseResult<'a, Located<Expr<'a>>, SyntaxError<'a>>)
        requires
            s == state,
        ensures
            r == crate::combinators::locate_of(s, crate::when::expr_at(min_indent, s)),
            reads_located_expr(r, s),
            gives_way(r) <==> !crate::state::at_keyword(s, crate::state::word_when()),
        { locate(s, crate::when::expr(min_indent, arena, s)) };
    let r = or_else(r, a_when, state);
    let an_if = |s: State<'a>| -> (r: ParseResult<'a, Located<Expr<'a>>, SyntaxError<'a>>)
        requires
            s == state,
        ensures
            r == crate::combinators::locate_of(s, crate::conditional::if_expr_at(min_indent, s)),
            reads_located_expr(r, s),
            gives_way(r) <==> !crate::state::at_keyword(s, crate::state::word_if()),
        { locate(s, crate::conditional::if_expr(min_indent, arena, s)) };
    let r = or_else(r, an_if, state);
    let an_identifier = |s: State<'a>| -> (r: ParseResult<'a, Located<Expr<'a>>, SyntaxError<'a>>)
        requires
            s == state,
        ensures
            r == crate::combinators::locate_of(s, ident_without_apply_at(s)),
            reads_located_expr(r, s),
            gives_way(r) <==> !crate::ident::at_ident(s),
        { locate(s, ident_without_apply(arena, s)) };
    or_else(r, an_identifier, state)
}

// ---- lists ----

/// What reading a list literal comes to.
#[verifier::opaque]
pub open spec fn list_literal_help_at<'a>(min_indent: u16, state: State<'a>) -> ParseResult<
    'a,
    Expr<'a>,
    EList<'a>,
>
    decreases state.input@.len() - state.offset, 4nat,
{
    match state.spec_word1(OPEN_BRACKET) {
        None => Err((Progress::NoProgress, EList::Open(state.line, state.column), state)),
        Some(s1) => if !state.leads_to(s1) {
            arbitrary()
        } else {
            match list_items_at(min_indent, s1) {
                Ok((_, v, end)) => Ok(
                    (
                        Progress::MadeProgress,
                        Expr::List { items: v.0, final_comments: v.1 },
                        end,
                    ),
                ),
                Err((_, e, s)) => Err((Progress::MadeProgress, e, s)),
            }
        },
    }
}

#[verifier::opaque]
pub open spec fn list_literal_at<'a>(min_indent: u16, state: State<'a>) -> ParseResult<
    'a,
    Expr<'a>,
    SyntaxError<'a>,
>
    decreases state.input@.len() - state.offset, 5nat,
{
    match list_literal_help_at(min_indent, state) {
        Ok(ok) => Ok(ok),
        Err((p, e, s)) => Err((p, SyntaxError::Expr(EExpr::List(e, state.line, state.column)), s)),
    }
}

pub type ListItems<'a> = (List<'a, Located<Expr<'a>>>, &'a [CommentOrNewline<'a>]);

/// The items of a list and the closing bracket, from the cursor after the
/// opening bracket or after a comma.
#[verifier::opaque]
pub open spec fn list_items_at<'a>(min_indent: u16, state: State<'a>) -> ParseResult<
    'a,
    ListItems<'a>,
    EList<'a>,
>
    decreases state.input@.len() - state.offset, 14nat,
{
    match spaces_at(false, min_indent, state) {
        Err((_, problem, s)) => Err(
            (
                Progress::MadeProgress,
                EList::space_of(problem, EList::IndentOpen(s.line, s.column), s),
                s,
            ),
        ),
        Ok((_, spaces_before, s1)) => match s1.spec_word1(CLOSE_BRACKET) {
            Some(end) => Ok((Progress::MadeProgress, (List::Nil, spaces_before), end)),
            None => if !state.reaches(s1) {
                arbitrary()
            } else {
                match crate::combinators::syntax_in_list_of(loc_expr_at(min_indent, s1)) {
                    Err((_, e, s)) => Err((Progress::MadeProgress, e, s)),
                    Ok((_, item, s2)) => match spaces_at(false, min_indent, s2) {
                        Err((_, problem, s)) => Err(
                            (
                                Progress::MadeProgress,
                                EList::space_of(problem, EList::IndentEnd(s.line, s.column), s),
                                s,
                            ),
                        ),
                        Ok((_, spaces_after, s3)) => {
                            let item = spaced_after(
                                spaces_after,
                                spaced_before(spaces_before, item),
                            );
                            match s3.spec_word1(COMMA) {
                                Some(s4) => if !state.leads_to(s4) {
                                    arbitrary()
                                } else {
                                    match list_items_at(min_indent, s4) {
                                        Ok((_, v, end)) => Ok(
                                            (
                                                Progress::MadeProgress,
                                                (List::Cons(&item, &v.0), v.1),
                                                end,
                                            ),
                                        ),
                                        Err((_, e, s)) => Err((Progress::MadeProgress, e, s)),
                                    }
                                },
                                None => match s3.spec_word1(CLOSE_BRACKET) {
                                    Some(end) => Ok(
                                        (
                                            Progress::MadeProgress,
                                            (
                                                List::Cons(&item, &List::Nil),
                                                crate::state::the_slice(Seq::empty()),
                                            ),
                                            end,
                                        ),
                                    ),
                                    None => Err(
                                        (
                                            Progress::MadeProgress,
                                            EList::End(s3.line, s3.column),
                                            s3,
                                        ),
                                    ),
                                },
                            }
                        },
                    },
                }
            },
        },
    }
}

/// Reads a list literal: `[`, expressions with commas between them and,
/// if one likes, after the last, and `]`. White space may stand around
/// every part.
pub fn list_literal<'a>(min_indent: u16, arena: &'a Arena, state: State<'a>) -> (r: ParseResult<
    'a,
    Expr<'a>,
    SyntaxError<'a>,
>)
    requires
        state.wf(),
    ensures
        r == list_literal_at(min_indent, state),
        moves_on(r, state),
        (r matches Err((p, _, _)) && p is NoProgress) <==> !state.at_byte(OPEN_BRACKET),
        r matches Ok((p, e, s)) ==> p is MadeProgress && expr_in(e, s.span_from(state)) && e is List,
    decreases state.input@.len() - state.offset, 5nat,
{
    reveal_with_fuel(crate::expr::list_literal_at, 1);
    reveal_with_fuel(crate::expr::list_literal_help_at, 1);
    match list_literal_help(min_indent, arena, state) {
        Ok(ok) => Ok(ok),
        Err((p, e, s)) => Err(
            (p, SyntaxError::Expr(EExpr::List(e, state.line, state.column)), s),
        ),
    }
}

pub fn list_literal_help<'a>(min_indent: u16, arena: &'a Arena, state: State<'a>) -> (r:
    ParseResult<'a, Expr<'a>, EList<'a>>)
    requires
        state.wf(),
    ensures
        r == list_literal_help_at(min_indent, state),
        moves_on(r, state),
        (r matches Err((p, _, _)) && p is NoProgress) <==> !state.at_byte(OPEN_BRACKET),
        r matches Ok((p, e, s)) ==> p is MadeProgress && expr_in(e, s.span_from(state)) && e is List,
        r matches Err((p, e, _)) ==> (p is NoProgress ==> e == EList::Open(
            state.line,
            state.column,
        )),
    decreases state.input@.len() - state.offset, 4nat,
{
    reveal_with_fuel(crate::expr::list_literal_help_at, 1);
    reveal_with_fuel(crate::expr::list_items_at, 1);
    let s1 = match state.word1(OPEN_BRACKET) {
        Some(s) => s,
        None => {
            return Err((Progress::NoProgress, EList::Open(state.line, state.column), state));
        },
    };
    match list_items(min_indent, arena, s1) {
        Ok((_, (items, final_comments), end)) => {
            proof {
                lemma_loc_exprs_widen(items, end.span_from(s1), end.span_from(state));
            }
            Ok((Progress::MadeProgress, Expr::List { items, final_comments }, end))
        },
        Err((_, e, s)) => Err((Progress::MadeProgress, e, s)),
    }
}

/// Reads the items of a list and the closing bracket, from the cursor
/// after the opening bracket or after a comma.
fn list_items<'a>(min_indent: u16, arena: &'a Arena, state: State<'a>) -> (r: ParseResult<
    'a,
    (List<'a, Located<Expr<'a>>>, &'a [CommentOrNewline<'a>]),
    EList<'a>,
>)
    requires
        state.wf(),
    ensures
        r == list_items_at(min_indent, state),
        moves_on(r, state),
        r matches Ok((p, v, s)) ==> p is MadeProgress && loc_exprs_in(v.0, s.span_from(state)),
    decreases state.input@.len() - state.offset, 14nat,
{
    reveal_with_fuel(crate::expr::list_items_at, 1);
    reveal_with_fuel(crate::expr::loc_expr_at, 1);
    let (_, spaces_before, s1) = match space0(min_indent, arena, state) {
        Ok(ok) => ok,
        Err((_, problem, s)) => {
            return Err(
                (
                    Progress::MadeProgress,
                    EList::space(problem, EList::IndentOpen(s.line, s.column), &s),
                    s,
                ),
            );
        },
    };
    if let Some(end) = s1.word1(CLOSE_BRACKET) {
        assert(loc_exprs_in(List::Nil, end.span_from(state)));
        return Ok((Progress::MadeProgress, (List::Nil, spaces_before), end));
    }
    let (_, item, s2) = match syntax_in_list(arena, loc_expr(min_indent, arena, s1)) {
        Ok(ok) => ok,
        Err((_, e, s)) => {
            return Err((Progress::MadeProgress, e, s));
        },
    };
    let (_, spaces_after, s3) = match space0(min_indent, arena, s2) {
        Ok(ok) => ok,
        Err((_, problem, s)) => {
            return Err(
                (
                    Progress::MadeProgress,
                    EList::space(problem, EList::IndentEnd(s.line, s.column), &s),
                    s,
                ),
            );
        },
    };
    let item = with_spaces_after(arena, spaces_after, with_spaces_before(arena, spaces_before, item));
    match s3.word1(COMMA) {
        Some(s4) => match list_items(min_indent, arena, s4) {
            Ok((_, (rest, final_comments), end)) => {
                let items = List::cons(arena, item, rest);
                proof {
                    lemma_loc_exprs_widen(rest, end.span_from(s4), end.span_from(state));
                    assert(loc_exprs_in(items, end.span_from(state)));
                }
                Ok((Progress::MadeProgress, (items, final_comments), end))
            },
            Err((_, e, s)) => Err((Progress::MadeProgress, e, s)),
        },
        None => match s3.word1(CLOSE_BRACKET) {
            Some(end) => {
                let items = List::cons(arena, item, List::Nil);
                let no_comments: &'a [CommentOrNewline<'a>] = crate::arena::alloc_slice_in(
                    arena,
                    &[],
                );
                proof {
                    assert(loc_exprs_in(List::Nil, end.span_from(state)));
                    assert(loc_exprs_in(items, end.span_from(state)));
                    assert(no_comments@ =~= Seq::<CommentOrNewline<'a>>::empty());
                    crate::state::lemma_the_slice(no_comments);
                }
                Ok((Progress::MadeProgress, (items, no_comments), end))
            },
            None => Err((Progress::MadeProgress, EList::End(s3.line, s3.column), s3)),
        },
    }
}

} // verus!
