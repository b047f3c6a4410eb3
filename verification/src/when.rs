//! The grammar of `when`: a condition and the branches it is matched
//! against.

use vstd::prelude::*;
use crate::arena::{alloc_in, Arena, List};
use crate::ast::{Expr, Pattern, WhenBranch};
use crate::blankspace::{space0, spaces_at};
use crate::bounds::{
    expr_in, inside, lemma_loc_patterns_widen, lemma_when_branches_widen, loc_expr_in,
    loc_patterns_in, when_branch_in, when_branches_in,
};
use crate::combinators::{guard_in_when, syntax_in_when};
use crate::errors::{moves_on, EExpr, EWhen, ParseResult, SyntaxError};
use crate::expr::{
    loc_expr, loc_expr_at, spaced_after, spaced_before, with_spaces_after, with_spaces_before,
    GREATER,
};
use crate::literal::MINUS;
use crate::pattern::{
    loc_pattern, loc_pattern_at, pattern_spaced_after, pattern_spaced_before,
    pattern_with_spaces_after, pattern_with_spaces_before,
};
use crate::region::Located;
use crate::state::{at_keyword, word_if, word_is, word_when, Progress, State};

verus! {

pub const BAR: u8 = 124;

/// By how many columns the alternatives of a branch are off, if they are:
/// the first alternative must start in column `column`, and none of the
/// others may start to the left of it. The result is `column` less the
/// column of the first alternative that breaks this.
pub open spec fn misalignment(patterns: List<Located<Pattern>>, column: u16) -> Option<int> {
    match patterns {
        List::Nil => None,
        List::Cons(first, rest) => if first.region.start_col != column {
            Some(column - first.region.start_col)
        } else {
            first_to_the_left(*rest, column)
        },
    }
}

/// `column` less the column of the first of `patterns` that starts to the
/// left of `column`.
pub open spec fn first_to_the_left(patterns: List<Located<Pattern>>, column: u16) -> Option<int>
    decreases patterns,
{
    match patterns {
        List::Nil => None,
        List::Cons(head, tail) => if head.region.start_col < column {
            Some(column - head.region.start_col)
        } else {
            first_to_the_left(*tail, column)
        },
    }
}

fn check_to_the_left<'a>(patterns: List<'a, Located<Pattern<'a>>>, column: u16) -> (r: Result<
    (),
    i32,
>)
    ensures
        match r {
            Ok(_) => first_to_the_left(patterns, column) is None,
            Err(by) => first_to_the_left(patterns, column) == Some(by as int),
        },
    decreases patterns,
{
    match patterns {
        List::Nil => Ok(()),
        List::Cons(head, tail) => {
            if head.region.start_col < column {
                Err(column as i32 - head.region.start_col as i32)
            } else {
                check_to_the_left(*tail, column)
            }
        },
    }
}

/// Checks that the alternatives of a branch are indented correctly: the
/// first starts in the column `first_indent` in which the first branch
/// of the `when` starts, and no other starts to the left of it. If not,
/// the error is by how many columns the first offender is off.
pub fn alternatives_indented_correctly<'a>(
    loc_patterns: &List<'a, Located<Pattern<'a>>>,
    first_indent: u16,
) -> (r: Result<(), i32>)
    ensures
        match r {
            Ok(_) => misalignment(*loc_patterns, first_indent) is None,
            Err(by) => misalignment(*loc_patterns, first_indent) == Some(by as int),
        },
{
    match *loc_patterns {
        List::Nil => Ok(()),
        List::Cons(first, rest) => {
            if first.region.start_col == first_indent {
                check_to_the_left(*rest, first_indent)
            } else {
                Err(first_indent as i32 - first.region.start_col as i32)
            }
        },
    }
}

/// A branch has alternatives, and they are indented correctly for the
/// column `column`.
pub open spec fn branch_aligned(branch: WhenBranch, column: u16) -> bool {
    branch.patterns is Cons && misalignment(branch.patterns, column) is None
}

/// Every branch of the list has alternatives that are indented correctly
/// for the column `column`.
pub open spec fn branches_aligned(branches: List<WhenBranch>, column: u16) -> bool
    decreases branches,
{
    match branches {
        List::Nil => true,
        List::Cons(head, tail) => branch_aligned(*head, column) && branches_aligned(*tail, column),
    }
}

/// The column one to the right of `column`.
pub open spec fn beyond(column: u16) -> u16 {
    if column < u16::MAX {
        (column + 1) as u16
    } else {
        column
    }
}

/// The column in which the first of `patterns` starts.
pub open spec fn first_column(patterns: List<Located<Pattern>>) -> u16 {
    match patterns {
        List::Cons(first, _) => first.region.start_col,
        List::Nil => 0,
    }
}

pub type Alternatives<'a> = (List<'a, Located<Pattern<'a>>>, Option<Located<Expr<'a>>>);

/// What reading a `when` expression comes to.
#[verifier::opaque]
pub open spec fn expr_help_at<'a>(min_indent: u16, state: State<'a>) -> ParseResult<
    'a,
    Expr<'a>,
    EWhen<'a>,
>
    decreases state.input@.len() - state.offset, 4nat,
{
    match state.spec_keyword(word_when()) {
        None => Err((Progress::NoProgress, EWhen::When(state.line, state.column), state)),
        Some(s1) => match spaces_at(false, min_indent, s1) {
            Err((_, problem, s)) => Err(
                (
                    Progress::MadeProgress,
                    EWhen::space_of(problem, EWhen::IndentCondition(s.line, s.column), s),
                    s,
                ),
            ),
            Ok((_, spaces1, s2)) => if !state.leads_to(s2) {
                arbitrary()
            } else {
                match crate::combinators::syntax_in_when_of(loc_expr_at(min_indent, s2)) {
                    Err((_, e, s)) => Err((Progress::MadeProgress, e, s)),
                    Ok((_, condition, s3)) => match spaces_at(false, min_indent, s3) {
                        Err((_, problem, s)) => Err(
                            (
                                Progress::MadeProgress,
                                EWhen::space_of(problem, EWhen::IndentIs(s.line, s.column), s),
                                s,
                            ),
                        ),
                        Ok((_, spaces2, s4)) => match s4.spec_keyword(word_is()) {
                            None => Err((Progress::MadeProgress, EWhen::Is(s4.line, s4.column), s4)),
                            Some(s5) => if state.column < min_indent {
                                Err(
                                    (
                                        Progress::MadeProgress,
                                        EWhen::PatternAlignment(
                                            (min_indent - state.column) as i32,
                                            s5.line,
                                            s5.column,
                                        ),
                                        s5,
                                    ),
                                )
                            } else if !state.leads_to(s5) {
                                arbitrary()
                            } else {
                                match branches_at(state.column, s5) {
                                    Ok((_, found, end)) => Ok(
                                        (
                                            Progress::MadeProgress,
                                            Expr::When(
                                                &spaced_after(
                                                    spaces2,
                                                    spaced_before(spaces1, condition),
                                                ),
                                                found,
                                            ),
                                            end,
                                        ),
                                    ),
                                    Err((_, e, s)) => Err((Progress::MadeProgress, e, s)),
                                }
                            },
                        },
                    },
                }
            },
        },
    }
}

#[verifier::opaque]
pub open spec fn expr_at<'a>(min_indent: u16, state: State<'a>) -> ParseResult<
    'a,
    Expr<'a>,
    SyntaxError<'a>,
>
    decreases state.input@.len() - state.offset, 5nat,
{
    match expr_help_at(min_indent, state) {
        Ok(ok) => Ok(ok),
        Err((p, e, s)) => Err((p, SyntaxError::Expr(EExpr::When(e, state.line, state.column)), s)),
    }
}

/// The branches of a `when` at the cursor: the first, and all that follow
/// it in its column.
#[verifier::opaque]
pub open spec fn branches_at<'a>(min_indent: u16, state: State<'a>) -> ParseResult<
    'a,
    List<'a, WhenBranch<'a>>,
    EWhen<'a>,
>
    decreases state.input@.len() - state.offset, 16nat,
{
    match branch_alternatives_at(min_indent, state) {
        Err(e) => Err(e),
        Ok((_, v, s1)) => match misalignment(v.0, first_column(v.0)) {
            Some(by) => Err(
                (
                    Progress::MadeProgress,
                    EWhen::PatternAlignment(by as i32, s1.line, s1.column),
                    s1,
                ),
            ),
            None => if !state.leads_to(s1) {
                arbitrary()
            } else {
                match branch_result_at(beyond(first_column(v.0)), s1) {
                    Err((_, e, s)) => Err((Progress::MadeProgress, e, s)),
                    Ok((_, value, s2)) => if !state.leads_to(s2) {
                        arbitrary()
                    } else {
                        match more_branches_at(min_indent, first_column(v.0), s2) {
                            Ok((_, rest, end)) => Ok(
                                (
                                    Progress::MadeProgress,
                                    List::Cons(
                                        &(WhenBranch { patterns: v.0, value, guard: v.1 }),
                                        &rest,
                                    ),
                                    end,
                                ),
                            ),
                            Err((_, e, s)) => Err((Progress::MadeProgress, e, s)),
                        }
                    },
                }
            },
        },
    }
}

/// The branches that follow the first, as far as they go, each in the
/// column `first_indent`.
#[verifier::opaque]
pub open spec fn more_branches_at<'a>(
    min_indent: u16,
    first_indent: u16,
    state: State<'a>,
) -> ParseResult<'a, List<'a, WhenBranch<'a>>, EWhen<'a>>
    decreases state.input@.len() - state.offset, 17nat,
{
    if state.offset == state.input@.len() {
        Ok((Progress::NoProgress, List::Nil, state))
    } else {
        match branch_alternatives_at(min_indent, state) {
            Err((Progress::NoProgress, _, _)) => Ok((Progress::NoProgress, List::Nil, state)),
            Err((Progress::MadeProgress, e, s)) => Err((Progress::MadeProgress, e, s)),
            Ok((_, v, s1)) => match misalignment(v.0, first_indent) {
                Some(by) => Err(
                    (
                        Progress::MadeProgress,
                        EWhen::PatternAlignment(by as i32, s1.line, s1.column),
                        s1,
                    ),
                ),
                None => if !state.leads_to(s1) {
                    arbitrary()
                } else {
                    match branch_result_at(beyond(first_indent), s1) {
                        Err((_, e, s)) => Err((Progress::MadeProgress, e, s)),
                        Ok((_, value, s2)) => if !state.leads_to(s2) {
                            arbitrary()
                        } else {
                            match more_branches_at(min_indent, first_indent, s2) {
                                Ok((_, rest, end)) => Ok(
                                    (
                                        Progress::MadeProgress,
                                        List::Cons(
                                            &(WhenBranch { patterns: v.0, value, guard: v.1 }),
                                            &rest,
                                        ),
                                        end,
                                    ),
                                ),
                                Err(e) => Err(e),
                            }
                        },
                    }
                },
            },
        }
    }
}

/// The alternatives of a branch at the cursor, with the guard that may
/// follow them.
#[verifier::opaque]
pub open spec fn branch_alternatives_at<'a>(min_indent: u16, state: State<'a>) -> ParseResult<
    'a,
    Alternatives<'a>,
    EWhen<'a>,
>
    decreases state.input@.len() - state.offset, 15nat,
{
    match alternatives_at(min_indent, state) {
        Err(e) => Err(e),
        Ok((_, patterns, s1)) => match s1.spec_keyword(word_if()) {
            None => Ok((Progress::MadeProgress, (patterns, None), s1)),
            Some(s2) => match spaces_at(false, min_indent, s2) {
                Err((_, problem, s)) => Err(
                    (
                        Progress::MadeProgress,
                        EWhen::space_of(problem, EWhen::IndentIfGuard(s.line, s.column), s),
                        s,
                    ),
                ),
                Ok((_, spaces1, s3)) => if !state.leads_to(s3) {
                    arbitrary()
                } else {
                    match crate::combinators::guard_in_when_of(loc_expr_at(min_indent, s3)) {
                        Err((_, e, s)) => Err((Progress::MadeProgress, e, s)),
                        Ok((_, guard, s4)) => match spaces_at(false, min_indent, s4) {
                            Err((_, problem, s)) => Err(
                                (
                                    Progress::MadeProgress,
                                    EWhen::space_of(
                                        problem,
                                        EWhen::IndentArrow(s.line, s.column),
                                        s,
                                    ),
                                    s,
                                ),
                            ),
                            Ok((_, spaces2, end)) => Ok(
                                (
                                    Progress::MadeProgress,
                                    (
                                        patterns,
                                        Some(spaced_after(spaces2, spaced_before(spaces1, guard))),
                                    ),
                                    end,
                                ),
                            ),
                        },
                    }
                },
            },
        },
    }
}

/// A bar that separates alternatives stands at the cursor: one that is
/// not the start of `||` or `|>`.
pub open spec fn at_bar(state: State) -> bool {
    state.at_byte(BAR) && !(state.offset + 1 < state.input@.len() && (
    state.input@[state.offset + 1] == BAR || state.input@[state.offset + 1] == GREATER))
}

/// One or more patterns with bars between them, at the cursor.
#[verifier::opaque]
pub open spec fn alternatives_at<'a>(min_indent: u16, state: State<'a>) -> ParseResult<
    'a,
    List<'a, Located<Pattern<'a>>>,
    EWhen<'a>,
>
    decreases state.input@.len() - state.offset, 14nat,
{
    match spaces_at(false, min_indent, state) {
        Err((_, problem, s)) => Err(
            (
                Progress::NoProgress,
                EWhen::space_of(problem, EWhen::IndentPattern(state.line, state.column), state),
                state,
            ),
        ),
        Ok((_, spaces_before, s1)) => if !state.reaches(s1) {
            arbitrary()
        } else {
            match loc_pattern_at(min_indent, s1) {
                Err((Progress::NoProgress, e, _)) => Err(
                    (Progress::NoProgress, EWhen::Pattern(e, state.line, state.column), state),
                ),
                Err((Progress::MadeProgress, e, s)) => Err(
                    (Progress::MadeProgress, EWhen::Pattern(e, s1.line, s1.column), s),
                ),
                Ok((_, pattern, s2)) => match spaces_at(false, min_indent, s2) {
                    Err((_, problem, s)) => Err(
                        (
                            Progress::MadeProgress,
                            EWhen::space_of(problem, EWhen::IndentPattern(s.line, s.column), s),
                            s,
                        ),
                    ),
                    Ok((_, spaces_after, s3)) => {
                        let pattern = pattern_spaced_after(
                            spaces_after,
                            pattern_spaced_before(spaces_before, pattern),
                        );
                        if at_bar(s3) {
                            if !state.leads_to(s3.after(1)) {
                                arbitrary()
                            } else {
                                match alternatives_at(min_indent, s3.after(1)) {
                                    Ok((_, rest, end)) => Ok(
                                        (Progress::MadeProgress, List::Cons(&pattern, &rest), end),
                                    ),
                                    Err((_, e, s)) => Err((Progress::MadeProgress, e, s)),
                                }
                            }
                        } else {
                            Ok((Progress::MadeProgress, List::Cons(&pattern, &List::Nil), s3))
                        }
                    },
                },
            }
        },
    }
}

/// What reading the right-hand side of a branch comes to.
#[verifier::opaque]
pub open spec fn branch_result_at<'a>(indent: u16, state: State<'a>) -> ParseResult<
    'a,
    Located<Expr<'a>>,
    EWhen<'a>,
>
    decreases state.input@.len() - state.offset, 13nat,
{
    match state.spec_word(seq![MINUS, GREATER]) {
        None => Err((Progress::NoProgress, EWhen::Arrow(state.line, state.column), state)),
        Some(s1) => match spaces_at(false, indent, s1) {
            Err((_, problem, s)) => Err(
                (
                    Progress::MadeProgress,
                    EWhen::space_of(problem, EWhen::IndentBranch(s.line, s.column), s),
                    s,
                ),
            ),
            Ok((_, spaces, s2)) => if !state.leads_to(s2) {
                arbitrary()
            } else {
                match crate::combinators::syntax_in_when_of(loc_expr_at(indent, s2)) {
                    Ok((_, value, end)) => Ok(
                        (Progress::MadeProgress, spaced_before(spaces, value), end),
                    ),
                    Err((_, e, s)) => Err((Progress::MadeProgress, e, s)),
                }
            },
        },
    }
}

/// Reads a `when` expression, with the error of a whole parse.
pub fn expr<'a>(min_indent: u16, arena: &'a Arena, state: State<'a>) -> (r: ParseResult<
    'a,
    Expr<'a>,
    SyntaxError<'a>,
>)
    requires
        state.wf(),
    ensures
        r == expr_at(min_indent, state),
        moves_on(r, state),
        (r matches Err((p, _, _)) && p is NoProgress) <==> !at_keyword(state, word_when()),
        r matches Ok((p, e, s)) ==> p is MadeProgress && expr_in(e, s.span_from(state)) && (
        e matches Expr::When(_, branches) && branches matches List::Cons(first, _)
            && first.patterns matches List::Cons(pattern, _) && branches_aligned(
            branches,
            pattern.region.start_col,
        )),
    decreases state.input@.len() - state.offset, 5nat,
{
    reveal_with_fuel(crate::when::expr_at, 1);
    reveal_with_fuel(crate::when::expr_help_at, 1);
    match expr_help(min_indent, arena, state) {
        Ok(ok) => Ok(ok),
        Err((p, e, s)) => Err((p, SyntaxError::Expr(EExpr::When(e, state.line, state.column)), s)),
    }
}

/// Reads a `when` expression: `when`, the condition, `is`, and one or
/// more branches. No line of a branch may begin to the left of the column
/// of the `when`, and every branch must start in the column in which the
/// first branch starts.
///
/// Fails without progress exactly when the reserved word `when` does not
/// stand at the cursor.
pub fn expr_help<'a>(min_indent: u16, arena: &'a Arena, state: State<'a>) -> (r: ParseResult<
    'a,
    Expr<'a>,
    EWhen<'a>,
>)
    requires
        state.wf(),
    ensures
        r == expr_help_at(min_indent, state),
        moves_on(r, state),
        (r matches Err((p, _, _)) && p is NoProgress) <==> !at_keyword(state, word_when()),
        r matches Ok((p, e, s)) ==> p is MadeProgress && expr_in(e, s.span_from(state)) && (
        e matches Expr::When(_, branches) && branches matches List::Cons(first, _)
            && first.patterns matches List::Cons(pattern, _) && branches_aligned(
            branches,
            pattern.region.start_col,
        )),
        r matches Err((p, e, _)) ==> (p is NoProgress ==> e == EWhen::When(
            state.line,
            state.column,
        )),
    decreases state.input@.len() - state.offset, 4nat,
{
    reveal_with_fuel(crate::when::expr_help_at, 1);
    reveal_with_fuel(crate::expr::loc_expr_at, 1);
    reveal_with_fuel(crate::when::branches_at, 1);
    let (_, case_indent, s1) = match when_with_indent(state) {
        Ok(ok) => ok,
        Err(e) => {
            return Err(e);
        },
    };
    let (_, spaces1, s2) = match space0(min_indent, arena, s1) {
        Ok(ok) => ok,
        Err((_, problem, s)) => {
            return Err(
                (
                    Progress::MadeProgress,
                    EWhen::space(problem, EWhen::IndentCondition(s.line, s.column), &s),
                    s,
                ),
            );
        },
    };
    let (_, condition, s3) = match syntax_in_when(arena, loc_expr(min_indent, arena, s2)) {
        Ok(ok) => ok,
        Err((_, e, s)) => {
            return Err((Progress::MadeProgress, e, s));
        },
    };
    let (_, spaces2, s4) = match space0(min_indent, arena, s3) {
        Ok(ok) => ok,
        Err((_, problem, s)) => {
            return Err(
                (
                    Progress::MadeProgress,
                    EWhen::space(problem, EWhen::IndentIs(s.line, s.column), &s),
                    s,
                ),
            );
        },
    };
    let condition = with_spaces_after(
        arena,
        spaces2,
        with_spaces_before(arena, spaces1, condition),
    );
    let s5 = match s4.keyword_is() {
        Some(s) => s,
        None => {
            return Err((Progress::MadeProgress, EWhen::Is(s4.line, s4.column), s4));
        },
    };
    if case_indent < min_indent {
        return Err(
            (
                Progress::MadeProgress,
                EWhen::PatternAlignment(min_indent as i32 - case_indent as i32, s5.line, s5.column),
                s5,
            ),
        );
    }
    // Everything in the branches must be indented at least as much as the
    // `when` itself.
    match branches(case_indent, arena, s5) {
        Ok((_, found, end)) => {
            proof {
                lemma_when_branches_widen(found, end.span_from(s5), end.span_from(state));
            }
            let e = Expr::When(alloc_in(arena, condition), found);
            assert(expr_in(e, end.span_from(state)));
            Ok((Progress::MadeProgress, e, end))
        },
        Err((_, e, s)) => Err((Progress::MadeProgress, e, s)),
    }
}

/// Reads the reserved word `when` and hands back the column it stands in.
pub fn when_with_indent<'a>(state: State<'a>) -> (r: ParseResult<'a, u16, EWhen<'a>>)
    requires
        state.wf(),
    ensures
        r == match state.spec_keyword(word_when()) {
            Some(s) => Ok::<_, (Progress, EWhen<'a>, State<'a>)>(
                (Progress::MadeProgress, state.column, s),
            ),
            None => Err((Progress::NoProgress, EWhen::When(state.line, state.column), state)),
        },
        moves_on(r, state),
        r is Ok <==> at_keyword(state, word_when()),
        r matches Ok((p, column, s)) ==> p is MadeProgress && column == state.column && s.offset
            == state.offset + 4,
        r matches Err((p, e, _)) ==> p is NoProgress && e == EWhen::When(state.line, state.column),
{
    match state.keyword_when() {
        Some(s) => Ok((Progress::MadeProgress, state.column, s)),
        None => Err((Progress::NoProgress, EWhen::When(state.line, state.column), state)),
    }
}

/// Reads the branches of a `when`: the first, whose first alternative
/// fixes the column in which every branch must start, and all that follow
/// it.
pub fn branches<'a>(min_indent: u16, arena: &'a Arena, state: State<'a>) -> (r: ParseResult<
    'a,
    List<'a, WhenBranch<'a>>,
    EWhen<'a>,
>)
    requires
        state.wf(),
    ensures
        r == branches_at(min_indent, state),
        moves_on(r, state),
        r matches Ok((p, v, s)) ==> p is MadeProgress && when_branches_in(v, s.span_from(state))
            && (v matches List::Cons(first, _) && first.patterns matches List::Cons(pattern, _)
            && branches_aligned(v, pattern.region.start_col)),
    decreases state.input@.len() - state.offset, 16nat,
{
    reveal_with_fuel(crate::when::branches_at, 1);
    reveal_with_fuel(crate::when::branch_alternatives_at, 1);
    reveal_with_fuel(crate::when::branch_result_at, 1);
    reveal_with_fuel(crate::when::more_branches_at, 1);
    // The first branch may start in any column from `min_indent` on.
    let (_, (patterns, guard), s1) = match branch_alternatives(min_indent, arena, state) {
        Ok(ok) => ok,
        Err(e) => {
            return Err(e);
        },
    };
    let first_indent: u16 = match patterns {
        List::Cons(first, _) => first.region.start_col,
        List::Nil => 0,
    };
    match alternatives_indented_correctly(&patterns, first_indent) {
        Ok(_) => {},
        Err(by) => {
            return Err(
                (Progress::MadeProgress, EWhen::PatternAlignment(by, s1.line, s1.column), s1),
            );
        },
    }
    let indented_more: u16 = if first_indent < u16::MAX {
        first_indent + 1
    } else {
        first_indent
    };
    // The first arrow and the expression after it.
    let (_, value, s2) = match branch_result(indented_more, arena, s1) {
        Ok(ok) => ok,
        Err((_, e, s)) => {
            return Err((Progress::MadeProgress, e, s));
        },
    };
    let first = WhenBranch { patterns, value, guard };
    match more_branches(min_indent, first_indent, arena, s2) {
        Ok((_, rest, end)) => {
            let all = List::cons(arena, first, rest);
            proof {
                lemma_when_branches_widen(rest, end.span_from(s2), end.span_from(state));
                lemma_loc_patterns_widen(patterns, s1.span_from(state), end.span_from(state));
                assert(when_branches_in(all, end.span_from(state)));
                assert(branches_aligned(all, first_indent));
            }
            Ok((Progress::MadeProgress, all, end))
        },
        Err((_, e, s)) => Err((Progress::MadeProgress, e, s)),
    }
}

/// Reads the branches that follow the first, as long as there are any:
/// each must start in the column `first_indent`. Stops, without
/// progress, where no further branch begins.
fn more_branches<'a>(min_indent: u16, first_indent: u16, arena: &'a Arena, state: State<'a>) -> (r:
    ParseResult<'a, List<'a, WhenBranch<'a>>, EWhen<'a>>)
    requires
        state.wf(),
    ensures
        r == more_branches_at(min_indent, first_indent, state),
        moves_on(r, state),
        r matches Ok((p, v, s)) ==> when_branches_in(v, s.span_from(state)) && branches_aligned(
            v,
            first_indent,
        ),
        r matches Err((p, _, _)) ==> p is MadeProgress,
    decreases state.input@.len() - state.offset, 17nat,
{
    reveal_with_fuel(crate::when::more_branches_at, 1);
    reveal_with_fuel(crate::when::branch_alternatives_at, 1);
    reveal_with_fuel(crate::when::branch_result_at, 1);
    assert(when_branches_in(List::Nil, state.span_from(state)));
    if state.at_end() {
        return Ok((Progress::NoProgress, List::Nil, state));
    }
    let (_, (patterns, guard), s1) = match branch_alternatives(min_indent, arena, state) {
        Ok(ok) => ok,
        Err((Progress::NoProgress, _, _)) => {
            return Ok((Progress::NoProgress, List::Nil, state));
        },
        Err((Progress::MadeProgress, e, s)) => {
            return Err((Progress::MadeProgress, e, s));
        },
    };
    match alternatives_indented_correctly(&patterns, first_indent) {
        Ok(_) => {},
        Err(by) => {
            return Err(
                (Progress::MadeProgress, EWhen::PatternAlignment(by, s1.line, s1.column), s1),
            );
        },
    }
    let indented_more: u16 = if first_indent < u16::MAX {
        first_indent + 1
    } else {
        first_indent
    };
    let (_, value, s2) = match branch_result(indented_more, arena, s1) {
        Ok(ok) => ok,
        Err((_, e, s)) => {
            return Err((Progress::MadeProgress, e, s));
        },
    };
    let branch = WhenBranch { patterns, value, guard };
    match more_branches(min_indent, first_indent, arena, s2) {
        Ok((_, rest, end)) => {
            let all = List::cons(arena, branch, rest);
            proof {
                lemma_when_branches_widen(rest, end.span_from(s2), end.span_from(state));
                lemma_loc_patterns_widen(patterns, s1.span_from(state), end.span_from(state));
                assert(when_branches_in(all, end.span_from(state)));
                assert(branches_aligned(all, first_indent));
            }
            Ok((Progress::MadeProgress, all, end))
        },
        Err(e) => Err(e),
    }
}

/// Reads the alternatives of a branch, which are patterns with `|`
/// between them, and the guard `if condition` that may follow them.
pub fn branch_alternatives<'a>(min_indent: u16, arena: &'a Arena, state: State<'a>) -> (r:
    ParseResult<'a, (List<'a, Located<Pattern<'a>>>, Option<Located<Expr<'a>>>), EWhen<'a>>)
    requires
        state.wf(),
    ensures
        r == branch_alternatives_at(min_indent, state),
        moves_on(r, state),
        r matches Ok((p, v, s)) ==> p is MadeProgress && v.0 is Cons && loc_patterns_in(
            v.0,
            s.span_from(state),
        ) && (v.1 matches Some(g) ==> loc_expr_in(g, s.span_from(state))),
    decreases state.input@.len() - state.offset, 15nat,
{
    reveal_with_fuel(crate::when::branch_alternatives_at, 1);
    reveal_with_fuel(crate::when::alternatives_at, 1);
    reveal_with_fuel(crate::expr::loc_expr_at, 1);
    let (_, patterns, s1) = match alternatives(min_indent, arena, state) {
        Ok(ok) => ok,
        Err(e) => {
            return Err(e);
        },
    };
    let s2 = match s1.keyword_if() {
        Some(s) => s,
        None => {
            return Ok((Progress::MadeProgress, (patterns, None), s1));
        },
    };
    let (_, spaces1, s3) = match space0(min_indent, arena, s2) {
        Ok(ok) => ok,
        Err((_, problem, s)) => {
            return Err(
                (
                    Progress::MadeProgress,
                    EWhen::space(problem, EWhen::IndentIfGuard(s.line, s.column), &s),
                    s,
                ),
            );
        },
    };
    let (_, guard, s4) = match guard_in_when(arena, loc_expr(min_indent, arena, s3)) {
        Ok(ok) => ok,
        Err((_, e, s)) => {
            return Err((Progress::MadeProgress, e, s));
        },
    };
    let (_, spaces2, end) = match space0(min_indent, arena, s4) {
        Ok(ok) => ok,
        Err((_, problem, s)) => {
            return Err(
                (
                    Progress::MadeProgress,
                    EWhen::space(problem, EWhen::IndentArrow(s.line, s.column), &s),
                    s,
                ),
            );
        },
    };
    let guard = with_spaces_after(arena, spaces2, with_spaces_before(arena, spaces1, guard));
    proof {
        lemma_loc_patterns_widen(patterns, s1.span_from(state), end.span_from(state));
    }
    Ok((Progress::MadeProgress, (patterns, Some(guard)), end))
}

/// Reads one or more patterns with `|` between them. White space may
/// stand before and after each. Before the first pattern nothing is final:
/// where no pattern begins, this fails without progress.
fn alternatives<'a>(min_indent: u16, arena: &'a Arena, state: State<'a>) -> (r: ParseResult<
    'a,
    List<'a, Located<Pattern<'a>>>,
    EWhen<'a>,
>)
    requires
        state.wf(),
    ensures
        r == alternatives_at(min_indent, state),
        moves_on(r, state),
        r matches Ok((p, v, s)) ==> p is MadeProgress && v is Cons && loc_patterns_in(
            v,
            s.span_from(state),
        ),
    decreases state.input@.len() - state.offset, 14nat,
{
    reveal_with_fuel(crate::when::alternatives_at, 1);
    reveal_with_fuel(crate::pattern::loc_pattern_at, 1);
    let (_, spaces_before, s1) = match space0(min_indent, arena, state) {
        Ok(ok) => ok,
        Err((_, problem, s)) => {
            return Err(
                (
                    Progress::NoProgress,
                    EWhen::space(
                        problem,
                        EWhen::IndentPattern(state.line, state.column),
                        &state,
                    ),
                    state,
                ),
            );
        },
    };
    let (_, pattern, s2) = match loc_pattern(min_indent, arena, s1) {
        Ok(ok) => ok,
        Err((Progress::NoProgress, e, _)) => {
            return Err(
                (Progress::NoProgress, EWhen::Pattern(e, state.line, state.column), state),
            );
        },
        Err((Progress::MadeProgress, e, s)) => {
            return Err((Progress::MadeProgress, EWhen::Pattern(e, s1.line, s1.column), s));
        },
    };
    let (_, spaces_after, s3) = match space0(min_indent, arena, s2) {
        Ok(ok) => ok,
        Err((_, problem, s)) => {
            return Err(
                (
                    Progress::MadeProgress,
                    EWhen::space(problem, EWhen::IndentPattern(s.line, s.column), &s),
                    s,
                ),
            );
        },
    };
    let pattern = pattern_with_spaces_after(
        arena,
        spaces_after,
        pattern_with_spaces_before(arena, spaces_before, pattern),
    );
    // A bar that is not the start of `||` or `|>` separates alternatives.
    let after_bar = match (s3.peek(), s3.peek_at(1)) {
        (Some(bar), next) => {
            if bar == BAR && next != Some(BAR) && next != Some(GREATER) {
                Some(s3.advance())
            } else {
                None
            }
        },
        _ => None,
    };
    match after_bar {
        Some(s4) => match alternatives(min_indent, arena, s4) {
            Ok((_, rest, end)) => {
                let all = List::cons(arena, pattern, rest);
                proof {
                    lemma_loc_patterns_widen(rest, end.span_from(s4), end.span_from(state));
                    assert(loc_patterns_in(all, end.span_from(state)));
                }
                Ok((Progress::MadeProgress, all, end))
            },
            Err((_, e, s)) => Err((Progress::MadeProgress, e, s)),
        },
        None => {
            let all = List::cons(arena, pattern, List::Nil);
            proof {
                assert(loc_patterns_in(List::Nil, s3.span_from(state)));
                assert(loc_patterns_in(all, s3.span_from(state)));
            }
            Ok((Progress::MadeProgress, all, s3))
        },
    }
}

/// Reads the right-hand side of a branch: the arrow and the expression
/// after it.
pub fn branch_result<'a>(indent: u16, arena: &'a Arena, state: State<'a>) -> (r: ParseResult<
    'a,
    Located<Expr<'a>>,
    EWhen<'a>,
>)
    requires
        state.wf(),
    ensures
        r == branch_result_at(indent, state),
        moves_on(r, state),
        (r matches Err((p, _, _)) && p is NoProgress) <==> !state.at_word(seq![MINUS, GREATER]),
        r matches Ok((p, v, s)) ==> p is MadeProgress && loc_expr_in(v, s.span_from(state)),
    decreases state.input@.len() - state.offset, 13nat,
{
    reveal_with_fuel(crate::when::branch_result_at, 1);
    reveal_with_fuel(crate::expr::loc_expr_at, 1);
    let s1 = match state.word2(MINUS, GREATER) {
        Some(s) => s,
        None => {
            return Err((Progress::NoProgress, EWhen::Arrow(state.line, state.column), state));
        },
    };
    let (_, spaces, s2) = match space0(indent, arena, s1) {
        Ok(ok) => ok,
        Err((_, problem, s)) => {
            return Err(
                (
                    Progress::MadeProgress,
                    EWhen::space(problem, EWhen::IndentBranch(s.line, s.column), &s),
                    s,
                ),
            );
        },
    };
    match syntax_in_when(arena, loc_expr(indent, arena, s2)) {
        Ok((_, value, end)) => Ok(
            (Progress::MadeProgress, with_spaces_before(arena, spaces, value), end),
        ),
        Err((_, e, s)) => Err((Progress::MadeProgress, e, s)),
    }
}

} // verus!
