//! The grammar of `if`: one or more conditions, each with the branch that
//! is taken when it holds, and the branch that is taken when none does.

use vstd::prelude::*;
use crate::arena::{alloc_in, Arena, List};
use crate::ast::Expr;
use crate::blankspace::{space0, spaces_at};
use crate::bounds::{expr_in, if_branches_in, lemma_if_branches_widen, loc_expr_in};
use crate::combinators::syntax_in_if;
use crate::errors::{moves_on, EExpr, EIf, ParseResult, SyntaxError};
use crate::expr::{
    loc_expr, loc_expr_at, spaced_after, spaced_before, with_spaces_after, with_spaces_before,
};
use crate::region::Located;
use crate::state::{at_keyword, word_else, word_if, word_then, Progress, State};

verus! {

pub type IfBranch<'a> = (Located<Expr<'a>>, Located<Expr<'a>>);

/// What reading a condition and its branch comes to.
#[verifier::opaque]
pub open spec fn if_branch_at<'a>(min_indent: u16, state: State<'a>) -> ParseResult<
    'a,
    IfBranch<'a>,
    EIf<'a>,
>
    decreases state.input@.len() - state.offset, 14nat,
{
    match spaces_at(false, min_indent, state) {
        Err((_, problem, s)) => Err(
            (
                Progress::MadeProgress,
                EIf::space_of(problem, EIf::IndentCondition(s.line, s.column), s),
                s,
            ),
        ),
        Ok((_, spaces1, s1)) => if !state.reaches(s1) {
            arbitrary()
        } else {
            match crate::combinators::syntax_in_if_of(loc_expr_at(min_indent, s1)) {
                Err((_, e, s)) => Err((Progress::MadeProgress, e, s)),
                Ok((_, cond, s2)) => match spaces_at(false, min_indent, s2) {
                    Err((_, problem, s)) => Err(
                        (
                            Progress::MadeProgress,
                            EIf::space_of(problem, EIf::IndentThenToken(s.line, s.column), s),
                            s,
                        ),
                    ),
                    Ok((_, spaces2, s3)) => match s3.spec_keyword(word_then()) {
                        None => Err(
                            (Progress::MadeProgress, EIf::ThenToken(s3.line, s3.column), s3),
                        ),
                        Some(s4) => match spaces_at(false, min_indent, s4) {
                            Err((_, problem, s)) => Err(
                                (
                                    Progress::MadeProgress,
                                    EIf::space_of(
                                        problem,
                                        EIf::IndentThenBranch(s.line, s.column),
                                        s,
                                    ),
                                    s,
                                ),
                            ),
                            Ok((_, spaces3, s5)) => if !state.leads_to(s5) {
                                arbitrary()
                            } else {
                                match crate::combinators::syntax_in_if_of(
                                    loc_expr_at(min_indent, s5),
                                ) {
                                    Err((_, e, s)) => Err((Progress::MadeProgress, e, s)),
                                    Ok((_, branch, s6)) => match spaces_at(false, min_indent, s6) {
                                        Err((_, problem, s)) => Err(
                                            (
                                                Progress::MadeProgress,
                                                EIf::space_of(
                                                    problem,
                                                    EIf::IndentElseToken(s.line, s.column),
                                                    s,
                                                ),
                                                s,
                                            ),
                                        ),
                                        Ok((_, spaces4, s7)) => match s7.spec_keyword(word_else()) {
                                            Some(end) => Ok(
                                                (
                                                    Progress::MadeProgress,
                                                    (
                                                        spaced_after(
                                                            spaces2,
                                                            spaced_before(spaces1, cond),
                                                        ),
                                                        spaced_after(
                                                            spaces4,
                                                            spaced_before(spaces3, branch),
                                                        ),
                                                    ),
                                                    end,
                                                ),
                                            ),
                                            None => Err(
                                                (
                                                    Progress::MadeProgress,
                                                    EIf::Else(s7.line, s7.column),
                                                    s7,
                                                ),
                                            ),
                                        },
                                    },
                                }
                            },
                        },
                    },
                },
            }
        },
    }
}

/// The conditions and branches of an `if`, from the cursor after `if`.
#[verifier::opaque]
pub open spec fn if_branches_at<'a>(min_indent: u16, state: State<'a>) -> ParseResult<
    'a,
    List<'a, IfBranch<'a>>,
    EIf<'a>,
>
    decreases state.input@.len() - state.offset, 15nat,
{
    match if_branch_at(min_indent, state) {
        Err(e) => Err(e),
        Ok((_, first, s1)) => {
            let next_if = match spaces_at(false, min_indent, s1) {
                Ok((_, _, s)) => s.spec_keyword(word_if()),
                Err(_) => None,
            };
            match next_if {
                Some(s2) => if !state.leads_to(s2) {
                    arbitrary()
                } else {
                    match if_branches_at(min_indent, s2) {
                        Ok((_, rest, end)) => Ok(
                            (Progress::MadeProgress, List::Cons(&first, &rest), end),
                        ),
                        Err(e) => Err(e),
                    }
                },
                None => Ok((Progress::MadeProgress, List::Cons(&first, &List::Nil), s1)),
            }
        },
    }
}

/// What reading an `if` expression comes to.
#[verifier::opaque]
pub open spec fn if_expr_help_at<'a>(min_indent: u16, state: State<'a>) -> ParseResult<
    'a,
    Expr<'a>,
    EIf<'a>,
>
    decreases state.input@.len() - state.offset, 4nat,
{
    match state.spec_keyword(word_if()) {
        None => Err((Progress::NoProgress, EIf::If(state.line, state.column), state)),
        Some(s1) => if !state.leads_to(s1) {
            arbitrary()
        } else {
            match if_branches_at(min_indent, s1) {
                Err(e) => Err(e),
                Ok((_, branches, s2)) => match spaces_at(false, min_indent, s2) {
                    Err((_, problem, s)) => Err(
                        (
                            Progress::MadeProgress,
                            EIf::space_of(problem, EIf::IndentElseBranch(s.line, s.column), s),
                            s,
                        ),
                    ),
                    Ok((_, spaces, s3)) => if !state.leads_to(s3) {
                        arbitrary()
                    } else {
                        match crate::combinators::syntax_in_if_of(loc_expr_at(min_indent, s3)) {
                            Ok((_, otherwise, end)) => Ok(
                                (
                                    Progress::MadeProgress,
                                    Expr::If(branches, &spaced_before(spaces, otherwise)),
                                    end,
                                ),
                            ),
                            Err((_, e, s)) => Err((Progress::MadeProgress, e, s)),
                        }
                    },
                },
            }
        },
    }
}

#[verifier::opaque]
pub open spec fn if_expr_at<'a>(min_indent: u16, state: State<'a>) -> ParseResult<
    'a,
    Expr<'a>,
    SyntaxError<'a>,
>
    decreases state.input@.len() - state.offset, 5nat,
{
    match if_expr_help_at(min_indent, state) {
        Ok(ok) => Ok(ok),
        Err((p, e, s)) => Err((p, SyntaxError::Expr(EExpr::If(e, state.line, state.column)), s)),
    }
}

/// Reads a condition and its branch: the condition, the word that ends
/// it, the branch, and `else`. White space may stand around the condition
/// and around the branch. This is the inside of an `if`: whatever goes
/// wrong is a failure with progress.
pub fn if_branch<'a>(min_indent: u16, arena: &'a Arena, state: State<'a>) -> (r: ParseResult<
    'a,
    (Located<Expr<'a>>, Located<Expr<'a>>),
    EIf<'a>,
>)
    requires
        state.wf(),
    ensures
        r == if_branch_at(min_indent, state),
        moves_on(r, state),
        r matches Ok((p, v, s)) ==> p is MadeProgress && loc_expr_in(v.0, s.span_from(state))
            && loc_expr_in(v.1, s.span_from(state)),
        r matches Err((p, _, _)) ==> p is MadeProgress,
    decreases state.input@.len() - state.offset, 14nat,
{
    reveal_with_fuel(crate::conditional::if_branch_at, 1);
    reveal_with_fuel(crate::expr::loc_expr_at, 1);
    let (_, spaces1, s1) = match space0(min_indent, arena, state) {
        Ok(ok) => ok,
        Err((_, problem, s)) => {
            return Err(
                (
                    Progress::MadeProgress,
                    EIf::space(problem, EIf::IndentCondition(s.line, s.column), &s),
                    s,
                ),
            );
        },
    };
    let (_, cond, s2) = match syntax_in_if(arena, loc_expr(min_indent, arena, s1)) {
        Ok(ok) => ok,
        Err((_, e, s)) => {
            return Err((Progress::MadeProgress, e, s));
        },
    };
    let (_, spaces2, s3) = match space0(min_indent, arena, s2) {
        Ok(ok) => ok,
        Err((_, problem, s)) => {
            return Err(
                (
                    Progress::MadeProgress,
                    EIf::space(problem, EIf::IndentThenToken(s.line, s.column), &s),
                    s,
                ),
            );
        },
    };
    let cond = with_spaces_after(arena, spaces2, with_spaces_before(arena, spaces1, cond));
    let s4 = match s3.keyword_then() {
        Some(s) => s,
        None => {
            return Err((Progress::MadeProgress, EIf::ThenToken(s3.line, s3.column), s3));
        },
    };
    let (_, spaces3, s5) = match space0(min_indent, arena, s4) {
        Ok(ok) => ok,
        Err((_, problem, s)) => {
            return Err(
                (
                    Progress::MadeProgress,
                    EIf::space(problem, EIf::IndentThenBranch(s.line, s.column), &s),
                    s,
                ),
            );
        },
    };
    let (_, branch, s6) = match syntax_in_if(arena, loc_expr(min_indent, arena, s5)) {
        Ok(ok) => ok,
        Err((_, e, s)) => {
            return Err((Progress::MadeProgress, e, s));
        },
    };
    let (_, spaces4, s7) = match space0(min_indent, arena, s6) {
        Ok(ok) => ok,
        Err((_, problem, s)) => {
            return Err(
                (
                    Progress::MadeProgress,
                    EIf::space(problem, EIf::IndentElseToken(s.line, s.column), &s),
                    s,
                ),
            );
        },
    };
    let branch = with_spaces_after(arena, spaces4, with_spaces_before(arena, spaces3, branch));
    match s7.keyword_else() {
        Some(end) => Ok((Progress::MadeProgress, (cond, branch), end)),
        None => Err((Progress::MadeProgress, EIf::Else(s7.line, s7.column), s7)),
    }
}

/// Reads the conditions and branches of an `if`, from the cursor after
/// `if`: one condition with its branch, and then, as long as another `if`
/// follows the `else` at once, the next.
fn if_branches<'a>(min_indent: u16, arena: &'a Arena, state: State<'a>) -> (r: ParseResult<
    'a,
    List<'a, (Located<Expr<'a>>, Located<Expr<'a>>)>,
    EIf<'a>,
>)
    requires
        state.wf(),
    ensures
        r == if_branches_at(min_indent, state),
        moves_on(r, state),
        r matches Ok((p, v, s)) ==> p is MadeProgress && v is Cons && if_branches_in(
            v,
            s.span_from(state),
        ),
        r matches Err((p, _, _)) ==> p is MadeProgress,
    decreases state.input@.len() - state.offset, 15nat,
{
    reveal_with_fuel(crate::conditional::if_branches_at, 1);
    reveal_with_fuel(crate::conditional::if_branch_at, 1);
    let (_, first, s1) = match if_branch(min_indent, arena, state) {
        Ok(ok) => ok,
        Err(e) => {
            return Err(e);
        },
    };
    // Another `if` may follow. The white space between the `else` and it
    // is dropped.
    let next_if = match space0(min_indent, arena, s1) {
        Ok((_, _, s)) => s.keyword_if(),
        Err(_) => None,
    };
    match next_if {
        Some(s2) => match if_branches(min_indent, arena, s2) {
            Ok((_, rest, end)) => {
                let branches = List::cons(arena, first, rest);
                proof {
                    lemma_if_branches_widen(rest, end.span_from(s2), end.span_from(state));
                    assert(if_branches_in(branches, end.span_from(state)));
                }
                Ok((Progress::MadeProgress, branches, end))
            },
            Err(e) => Err(e),
        },
        None => {
            let branches = List::cons(arena, first, List::Nil);
            proof {
                assert(if_branches_in(List::Nil, s1.span_from(state)));
                assert(if_branches_in(branches, s1.span_from(state)));
            }
            Ok((Progress::MadeProgress, branches, s1))
        },
    }
}

/// Reads an `if` expression: `if`, the conditions with their branches,
/// and the final branch after the last `else`.
///
/// Fails without progress exactly when the reserved word `if` does not
/// stand at the cursor.
pub fn if_expr_help<'a>(min_indent: u16, arena: &'a Arena, state: State<'a>) -> (r: ParseResult<
    'a,
    Expr<'a>,
    EIf<'a>,
>)
    requires
        state.wf(),
    ensures
        r == if_expr_help_at(min_indent, state),
        moves_on(r, state),
        (r matches Err((p, _, _)) && p is NoProgress) <==> !at_keyword(state, word_if()),
        r matches Ok((p, e, s)) ==> p is MadeProgress && expr_in(e, s.span_from(state)) && (
        e matches Expr::If(branches, _) && branches is Cons),
        r matches Err((p, e, _)) ==> (p is NoProgress ==> e == EIf::If(state.line, state.column)),
    decreases state.input@.len() - state.offset, 4nat,
{
    reveal_with_fuel(crate::conditional::if_expr_help_at, 1);
    reveal_with_fuel(crate::conditional::if_branches_at, 1);
    reveal_with_fuel(crate::expr::loc_expr_at, 1);
    let s1 = match state.keyword_if() {
        Some(s) => s,
        None => {
            return Err((Progress::NoProgress, EIf::If(state.line, state.column), state));
        },
    };
    let (_, branches, s2) = match if_branches(min_indent, arena, s1) {
        Ok(ok) => ok,
        Err(e) => {
            return Err(e);
        },
    };
    let (_, spaces, s3) = match space0(min_indent, arena, s2) {
        Ok(ok) => ok,
        Err((_, problem, s)) => {
            return Err(
                (
                    Progress::MadeProgress,
                    EIf::space(problem, EIf::IndentElseBranch(s.line, s.column), &s),
                    s,
                ),
            );
        },
    };
    match syntax_in_if(arena, loc_expr(min_indent, arena, s3)) {
        Ok((_, otherwise, end)) => {
            let otherwise = with_spaces_before(arena, spaces, otherwise);
            proof {
                lemma_if_branches_widen(branches, s2.span_from(s1), end.span_from(state));
            }
            let e = Expr::If(branches, alloc_in(arena, otherwise));
            assert(expr_in(e, end.span_from(state)));
            Ok((Progress::MadeProgress, e, end))
        },
        Err((_, e, s)) => Err((Progress::MadeProgress, e, s)),
    }
}

/// Reads an `if` expression, with the error of a whole parse.
pub fn if_expr<'a>(min_indent: u16, arena: &'a Arena, state: State<'a>) -> (r: ParseResult<
    'a,
    Expr<'a>,
    SyntaxError<'a>,
>)
    requires
        state.wf(),
    ensures
        r == if_expr_at(min_indent, state),
        moves_on(r, state),
        (r matches Err((p, _, _)) && p is NoProgress) <==> !at_keyword(state, word_if()),
        r matches Ok((p, e, s)) ==> p is MadeProgress && expr_in(e, s.span_from(state)) && (
        e matches Expr::If(branches, _) && branches is Cons),
    decreases state.input@.len() - state.offset, 5nat,
{
    reveal_with_fuel(crate::conditional::if_expr_at, 1);
    reveal_with_fuel(crate::conditional::if_expr_help_at, 1);
    match if_expr_help(min_indent, arena, state) {
        Ok(ok) => Ok(ok),
        Err((p, e, s)) => Err((p, SyntaxError::Expr(EExpr::If(e, state.line, state.column)), s)),
    }
}

} // verus!
