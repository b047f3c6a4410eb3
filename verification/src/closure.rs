//! The grammar of closures: `\param, param -> body`.

use vstd::prelude::*;
use crate::arena::{alloc_in, Arena, List};
use crate::ast::{Expr, Pattern};
use crate::blankspace::{space0, spaces_at};
use crate::bounds::{expr_in, lemma_loc_patterns_widen, loc_patterns_in};
use crate::combinators::syntax_in_lambda;
use crate::errors::{moves_on, EExpr, ELambda, ParseResult, SyntaxError};
use crate::expr::{loc_expr, loc_expr_at, spaced_before, with_spaces_before, COMMA, GREATER};
use crate::literal::{BACKSLASH, MINUS};
use crate::pattern::{
    loc_closure_param, loc_closure_param_at, pattern_spaced_after, pattern_spaced_before,
    pattern_with_spaces_after, pattern_with_spaces_before,
};
use crate::region::Located;
use crate::state::{Progress, State};

verus! {

/// What reading a closure comes to.
#[verifier::opaque]
pub open spec fn closure_help_at<'a>(min_indent: u16, state: State<'a>) -> ParseResult<
    'a,
    Expr<'a>,
    ELambda<'a>,
>
    decreases state.input@.len() - state.offset, 4nat,
{
    match state.spec_word1(BACKSLASH) {
        None => Err((Progress::NoProgress, ELambda::Start(state.line, state.column), state)),
        Some(s1) => if !state.leads_to(s1) {
            arbitrary()
        } else {
            match closure_params_at(min_indent, s1) {
                Err((_, e, s)) => Err((Progress::MadeProgress, e, s)),
                Ok((_, params, s2)) => match s2.spec_word(seq![MINUS, GREATER]) {
                    None => Err((Progress::MadeProgress, ELambda::Arrow(s2.line, s2.column), s2)),
                    Some(s3) => match spaces_at(false, min_indent, s3) {
                        Err((_, problem, s)) => Err(
                            (
                                Progress::MadeProgress,
                                ELambda::space_of(
                                    problem,
                                    ELambda::IndentBody(s.line, s.column),
                                    s,
                                ),
                                s,
                            ),
                        ),
                        Ok((_, spaces, s4)) => if !state.leads_to(s4) {
                            arbitrary()
                        } else {
                            match crate::combinators::syntax_in_lambda_of(
                                loc_expr_at(min_indent, s4),
                            ) {
                                Ok((_, body, end)) => Ok(
                                    (
                                        Progress::MadeProgress,
                                        Expr::Closure(params, &spaced_before(spaces, body)),
                                        end,
                                    ),
                                ),
                                Err((_, e, s)) => Err((Progress::MadeProgress, e, s)),
                            }
                        },
                    },
                },
            }
        },
    }
}

#[verifier::opaque]
pub open spec fn closure_at<'a>(min_indent: u16, state: State<'a>) -> ParseResult<
    'a,
    Expr<'a>,
    SyntaxError<'a>,
>
    decreases state.input@.len() - state.offset, 5nat,
{
    match closure_help_at(min_indent, state) {
        Ok(ok) => Ok(ok),
        Err((p, e, s)) => Err(
            (p, SyntaxError::Expr(EExpr::Lambda(e, state.line, state.column)), s),
        ),
    }
}

/// The parameters of a closure at the cursor: one or more patterns with
/// commas between them.
#[verifier::opaque]
pub open spec fn closure_params_at<'a>(min_indent: u16, state: State<'a>) -> ParseResult<
    'a,
    List<'a, Located<Pattern<'a>>>,
    ELambda<'a>,
>
    decreases state.input@.len() - state.offset, 14nat,
{
    match spaces_at(false, min_indent, state) {
        Err((_, problem, s)) => Err(
            (
                Progress::MadeProgress,
                ELambda::space_of(problem, ELambda::IndentArg(s.line, s.column), s),
                s,
            ),
        ),
        Ok((_, spaces_before, s1)) => if !state.reaches(s1) {
            arbitrary()
        } else {
            match loc_closure_param_at(min_indent, s1) {
                Err((Progress::NoProgress, _, s)) => Err(
                    (Progress::MadeProgress, ELambda::Arg(s.line, s.column), s),
                ),
                Err((Progress::MadeProgress, e, s)) => Err(
                    (Progress::MadeProgress, ELambda::Pattern(e, s1.line, s1.column), s),
                ),
                Ok((_, param, s2)) => match spaces_at(false, min_indent, s2) {
                    Err((_, problem, s)) => Err(
                        (
                            Progress::MadeProgress,
                            ELambda::space_of(problem, ELambda::IndentArrow(s.line, s.column), s),
                            s,
                        ),
                    ),
                    Ok((_, spaces_after, s3)) => {
                        let param = pattern_spaced_after(
                            spaces_after,
                            pattern_spaced_before(spaces_before, param),
                        );
                        match s3.spec_word1(COMMA) {
                            Some(s4) => if !state.leads_to(s4) {
                                arbitrary()
                            } else {
                                match closure_params_at(min_indent, s4) {
                                    Ok((_, rest, end)) => Ok(
                                        (Progress::MadeProgress, List::Cons(&param, &rest), end),
                                    ),
                                    Err((_, e, s)) => Err((Progress::MadeProgress, e, s)),
                                }
                            },
                            None => Ok(
                                (Progress::MadeProgress, List::Cons(&param, &List::Nil), s3),
                            ),
                        }
                    },
                },
            }
        },
    }
}

/// Reads a closure.
pub fn closure<'a>(min_indent: u16, arena: &'a Arena, state: State<'a>) -> (r: ParseResult<
    'a,
    Expr<'a>,
    SyntaxError<'a>,
>)
    requires
        state.wf(),
    ensures
        r == closure_at(min_indent, state),
        moves_on(r, state),
        (r matches Err((p, _, _)) && p is NoProgress) <==> !state.at_byte(BACKSLASH),
        r matches Ok((p, e, s)) ==> p is MadeProgress && expr_in(e, s.span_from(state)) && (
        e matches Expr::Closure(params, _) && params is Cons),
    decreases state.input@.len() - state.offset, 5nat,
{
    reveal_with_fuel(crate::closure::closure_at, 1);
    reveal_with_fuel(crate::closure::closure_help_at, 1);
    match closure_help(min_indent, arena, state) {
        Ok(ok) => Ok(ok),
        Err((p, e, s)) => Err(
            (p, SyntaxError::Expr(EExpr::Lambda(e, state.line, state.column)), s),
        ),
    }
}

/// Reads a closure: a backslash, one or more parameters with commas
/// between them, an arrow and the body. Once the backslash is read this is
/// a closure and nothing else: whatever goes wrong after it is a failure
/// with progress.
pub fn closure_help<'a>(min_indent: u16, arena: &'a Arena, state: State<'a>) -> (r: ParseResult<
    'a,
    Expr<'a>,
    ELambda<'a>,
>)
    requires
        state.wf(),
    ensures
        r == closure_help_at(min_indent, state),
        moves_on(r, state),
        (r matches Err((p, _, _)) && p is NoProgress) <==> !state.at_byte(BACKSLASH),
        r matches Ok((p, e, s)) ==> p is MadeProgress && expr_in(e, s.span_from(state)) && (
        e matches Expr::Closure(params, _) && params is Cons),
        r matches Err((p, e, _)) ==> (p is NoProgress ==> e == ELambda::Start(
            state.line,
            state.column,
        )),
    decreases state.input@.len() - state.offset, 4nat,
{
    reveal_with_fuel(crate::closure::closure_help_at, 1);
    reveal_with_fuel(crate::closure::closure_params_at, 1);
    reveal_with_fuel(crate::expr::loc_expr_at, 1);
    // All closures start with a backslash, as in (\x -> x + 1).
    let s1 = match state.word1(BACKSLASH) {
        Some(s) => s,
        None => {
            return Err((Progress::NoProgress, ELambda::Start(state.line, state.column), state));
        },
    };
    let (_, params, s2) = match closure_params(min_indent, arena, s1) {
        Ok(ok) => ok,
        Err((_, e, s)) => {
            return Err((Progress::MadeProgress, e, s));
        },
    };
    // The arrow stands between the parameters and the body.
    let s3 = match s2.word2(MINUS, GREATER) {
        Some(s) => s,
        None => {
            return Err((Progress::MadeProgress, ELambda::Arrow(s2.line, s2.column), s2));
        },
    };
    let (_, spaces, s4) = match space0(min_indent, arena, s3) {
        Ok(ok) => ok,
        Err((_, problem, s)) => {
            return Err(
                (
                    Progress::MadeProgress,
                    ELambda::space(problem, ELambda::IndentBody(s.line, s.column), &s),
                    s,
                ),
            );
        },
    };
    match syntax_in_lambda(arena, loc_expr(min_indent, arena, s4)) {
        Ok((_, body, end)) => {
            let body = with_spaces_before(arena, spaces, body);
            proof {
                lemma_loc_patterns_widen(params, s2.span_from(s1), end.span_from(state));
            }
            let e = Expr::Closure(params, alloc_in(arena, body));
            assert(expr_in(e, end.span_from(state)));
            Ok((Progress::MadeProgress, e, end))
        },
        Err((_, e, s)) => Err((Progress::MadeProgress, e, s)),
    }
}

/// Reads the parameters of a closure: one or more patterns, with white
/// space allowed around each, and commas between them.
fn closure_params<'a>(min_indent: u16, arena: &'a Arena, state: State<'a>) -> (r: ParseResult<
    'a,
    List<'a, Located<Pattern<'a>>>,
    ELambda<'a>,
>)
    requires
        state.wf(),
    ensures
        r == closure_params_at(min_indent, state),
        moves_on(r, state),
        r matches Ok((p, v, s)) ==> p is MadeProgress && v is Cons && loc_patterns_in(
            v,
            s.span_from(state),
        ),
    decreases state.input@.len() - state.offset, 14nat,
{
    reveal_with_fuel(crate::closure::closure_params_at, 1);
    reveal_with_fuel(crate::pattern::loc_closure_param_at, 1);
    let (_, spaces_before, s1) = match space0(min_indent, arena, state) {
        Ok(ok) => ok,
        Err((_, problem, s)) => {
            return Err(
                (
                    Progress::MadeProgress,
                    ELambda::space(problem, ELambda::IndentArg(s.line, s.column), &s),
                    s,
                ),
            );
        },
    };
    let (_, param, s2) = match loc_closure_param(min_indent, arena, s1) {
        Ok(ok) => ok,
        Err((Progress::NoProgress, _, s)) => {
            return Err((Progress::MadeProgress, ELambda::Arg(s.line, s.column), s));
        },
        Err((Progress::MadeProgress, e, s)) => {
            return Err((Progress::MadeProgress, ELambda::Pattern(e, s1.line, s1.column), s));
        },
    };
    let (_, spaces_after, s3) = match space0(min_indent, arena, s2) {
        Ok(ok) => ok,
        Err((_, problem, s)) => {
            return Err(
                (
                    Progress::MadeProgress,
                    ELambda::space(problem, ELambda::IndentArrow(s.line, s.column), &s),
                    s,
                ),
            );
        },
    };
    let param = pattern_with_spaces_after(
        arena,
        spaces_after,
        pattern_with_spaces_before(arena, spaces_before, param),
    );
    match s3.word1(COMMA) {
        Some(s4) => match closure_params(min_indent, arena, s4) {
            Ok((_, rest, end)) => {
                let params = List::cons(arena, param, rest);
                proof {
                    lemma_loc_patterns_widen(rest, end.span_from(s4), end.span_from(state));
                    assert(loc_patterns_in(params, end.span_from(state)));
                }
                Ok((Progress::MadeProgress, params, end))
            },
            Err((_, e, s)) => Err((Progress::MadeProgress, e, s)),
        },
        None => {
            let params = List::cons(arena, param, List::Nil);
            proof {
                assert(loc_patterns_in(List::Nil, s3.span_from(state)));
                assert(loc_patterns_in(params, s3.span_from(state)));
            }
            Ok((Progress::MadeProgress, params, s3))
        },
    }
}

} // verus!
