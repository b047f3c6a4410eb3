//! Small pieces that the grammar is put together from: wrapping the error
//! of an inner parser in the error of the part that contains it, and
//! locating what was read.

use vstd::prelude::*;
use crate::arena::{alloc_in, Arena};
use crate::ast::Expr;
use crate::bounds::{expr_in, loc_expr_in};
use crate::errors::{
    moves_on, EExpr, EIf, EInParens, ELambda, EList, EPattern, ERecord, EWhen, ParseResult,
    SyntaxError,
};
use crate::region::Located;
use crate::state::{Progress, State};

verus! {

/// `out` is `r` with its error replaced: the same success, or a failure
/// with the same progress at the same cursor.
pub open spec fn same_but_error<'a, T, E1, E2>(
    r: ParseResult<'a, T, E1>,
    out: ParseResult<'a, T, E2>,
) -> bool {
    match (r, out) {
        (Ok(a), Ok(b)) => a == b,
        (Err((p1, _, s1)), Err((p2, _, s2))) => p1 == p2 && s1 == s2,
        _ => false,
    }
}

/// What `expr_error` makes of a result.
pub open spec fn expr_error_of<'a, T>(r: ParseResult<'a, T, EExpr<'a>>) -> ParseResult<'a, T, SyntaxError<'a>> {
    match r {
        Ok(ok) => Ok(ok),
        Err((p, e, s)) => Err((p, SyntaxError::Expr(e), s)),
    }
}

/// An expression error as the error of a whole parse.
pub fn expr_error<'a, T>(r: ParseResult<'a, T, EExpr<'a>>) -> (out: ParseResult<
    'a,
    T,
    SyntaxError<'a>,
>)
    ensures
        out == expr_error_of(r),
        same_but_error(r, out),
        r matches Err((_, e, _)) ==> out matches Err((_, e2, _)) && e2 == SyntaxError::Expr(e),
{
    match r {
        Ok(ok) => Ok(ok),
        Err((p, e, s)) => Err((p, SyntaxError::Expr(e), s)),
    }
}

/// What `syntax_in_expr` makes of a result.
pub open spec fn syntax_in_expr_of<'a, T>(r: ParseResult<'a, T, SyntaxError<'a>>) -> ParseResult<'a, T, EExpr<'a>> {
    match r {
        Ok(ok) => Ok(ok),
        Err((p, e, s)) => Err((p, EExpr::Syntax(&e, s.line, s.column), s)),
    }
}

/// The error of a whole parse as an expression error, with the place
/// where the inner parser stopped.
pub fn syntax_in_expr<'a, T>(arena: &'a Arena, r: ParseResult<'a, T, SyntaxError<'a>>) -> (out:
    ParseResult<'a, T, EExpr<'a>>)
    ensures
        out == syntax_in_expr_of(r),
        same_but_error(r, out),
        r matches Err((_, e, s)) ==> out matches Err((_, e2, _)) && e2 == EExpr::Syntax(
            &e,
            s.line,
            s.column,
        ),
{
    match r {
        Ok(ok) => Ok(ok),
        Err((p, e, s)) => Err((p, EExpr::Syntax(alloc_in(arena, e), s.line, s.column), s)),
    }
}

/// What `syntax_in_parens` makes of a result.
pub open spec fn syntax_in_parens_of<'a, T>(r: ParseResult<'a, T, SyntaxError<'a>>) -> ParseResult<'a, T, EInParens<'a>> {
    match r {
        Ok(ok) => Ok(ok),
        Err((p, e, s)) => Err((p, EInParens::Syntax(&e, s.line, s.column), s)),
    }
}

pub fn syntax_in_parens<'a, T>(arena: &'a Arena, r: ParseResult<'a, T, SyntaxError<'a>>) -> (out:
    ParseResult<'a, T, EInParens<'a>>)
    ensures
        out == syntax_in_parens_of(r),
        same_but_error(r, out),
        r matches Err((_, e, s)) ==> out matches Err((_, e2, _)) && e2 == EInParens::Syntax(
            &e,
            s.line,
            s.column,
        ),
{
    match r {
        Ok(ok) => Ok(ok),
        Err((p, e, s)) => Err((p, EInParens::Syntax(alloc_in(arena, e), s.line, s.column), s)),
    }
}

/// What `syntax_in_record` makes of a result.
pub open spec fn syntax_in_record_of<'a, T>(r: ParseResult<'a, T, SyntaxError<'a>>) -> ParseResult<'a, T, ERecord<'a>> {
    match r {
        Ok(ok) => Ok(ok),
        Err((p, e, s)) => Err((p, ERecord::Syntax(&e, s.line, s.column), s)),
    }
}

pub fn syntax_in_record<'a, T>(arena: &'a Arena, r: ParseResult<'a, T, SyntaxError<'a>>) -> (out:
    ParseResult<'a, T, ERecord<'a>>)
    ensures
        out == syntax_in_record_of(r),
        same_but_error(r, out),
        r matches Err((_, e, s)) ==> out matches Err((_, e2, _)) && e2 == ERecord::Syntax(
            &e,
            s.line,
            s.column,
        ),
{
    match r {
        Ok(ok) => Ok(ok),
        Err((p, e, s)) => Err((p, ERecord::Syntax(alloc_in(arena, e), s.line, s.column), s)),
    }
}

/// What `syntax_in_list` makes of a result.
pub open spec fn syntax_in_list_of<'a, T>(r: ParseResult<'a, T, SyntaxError<'a>>) -> ParseResult<'a, T, EList<'a>> {
    match r {
        Ok(ok) => Ok(ok),
        Err((p, e, s)) => Err((p, EList::Syntax(&e, s.line, s.column), s)),
    }
}

pub fn syntax_in_list<'a, T>(arena: &'a Arena, r: ParseResult<'a, T, SyntaxError<'a>>) -> (out:
    ParseResult<'a, T, EList<'a>>)
    ensures
        out == syntax_in_list_of(r),
        same_but_error(r, out),
        r matches Err((_, e, s)) ==> out matches Err((_, e2, _)) && e2 == EList::Syntax(
            &e,
            s.line,
            s.column,
        ),
{
    match r {
        Ok(ok) => Ok(ok),
        Err((p, e, s)) => Err((p, EList::Syntax(alloc_in(arena, e), s.line, s.column), s)),
    }
}

/// What `syntax_in_lambda` makes of a result.
pub open spec fn syntax_in_lambda_of<'a, T>(r: ParseResult<'a, T, SyntaxError<'a>>) -> ParseResult<'a, T, ELambda<'a>> {
    match r {
        Ok(ok) => Ok(ok),
        Err((p, e, s)) => Err((p, ELambda::Syntax(&e, s.line, s.column), s)),
    }
}

pub fn syntax_in_lambda<'a, T>(arena: &'a Arena, r: ParseResult<'a, T, SyntaxError<'a>>) -> (out:
    ParseResult<'a, T, ELambda<'a>>)
    ensures
        out == syntax_in_lambda_of(r),
        same_but_error(r, out),
        r matches Err((_, e, s)) ==> out matches Err((_, e2, _)) && e2 == ELambda::Syntax(
            &e,
            s.line,
            s.column,
        ),
{
    match r {
        Ok(ok) => Ok(ok),
        Err((p, e, s)) => Err((p, ELambda::Syntax(alloc_in(arena, e), s.line, s.column), s)),
    }
}

/// What `syntax_in_when` makes of a result.
pub open spec fn syntax_in_when_of<'a, T>(r: ParseResult<'a, T, SyntaxError<'a>>) -> ParseResult<'a, T, EWhen<'a>> {
    match r {
        Ok(ok) => Ok(ok),
        Err((p, e, s)) => Err((p, EWhen::Syntax(&e, s.line, s.column), s)),
    }
}

pub fn syntax_in_when<'a, T>(arena: &'a Arena, r: ParseResult<'a, T, SyntaxError<'a>>) -> (out:
    ParseResult<'a, T, EWhen<'a>>)
    ensures
        out == syntax_in_when_of(r),
        same_but_error(r, out),
        r matches Err((_, e, s)) ==> out matches Err((_, e2, _)) && e2 == EWhen::Syntax(
            &e,
            s.line,
            s.column,
        ),
{
    match r {
        Ok(ok) => Ok(ok),
        Err((p, e, s)) => Err((p, EWhen::Syntax(alloc_in(arena, e), s.line, s.column), s)),
    }
}

/// What `guard_in_when` makes of a result.
pub open spec fn guard_in_when_of<'a, T>(r: ParseResult<'a, T, SyntaxError<'a>>) -> ParseResult<'a, T, EWhen<'a>> {
    match r {
        Ok(ok) => Ok(ok),
        Err((p, e, s)) => Err((p, EWhen::IfGuard(&e, s.line, s.column), s)),
    }
}

pub fn guard_in_when<'a, T>(arena: &'a Arena, r: ParseResult<'a, T, SyntaxError<'a>>) -> (out:
    ParseResult<'a, T, EWhen<'a>>)
    ensures
        out == guard_in_when_of(r),
        same_but_error(r, out),
        r matches Err((_, e, s)) ==> out matches Err((_, e2, _)) && e2 == EWhen::IfGuard(
            &e,
            s.line,
            s.column,
        ),
{
    match r {
        Ok(ok) => Ok(ok),
        Err((p, e, s)) => Err((p, EWhen::IfGuard(alloc_in(arena, e), s.line, s.column), s)),
    }
}

/// What `syntax_in_if` makes of a result.
pub open spec fn syntax_in_if_of<'a, T>(r: ParseResult<'a, T, SyntaxError<'a>>) -> ParseResult<'a, T, EIf<'a>> {
    match r {
        Ok(ok) => Ok(ok),
        Err((p, e, s)) => Err((p, EIf::Syntax(&e, s.line, s.column), s)),
    }
}

pub fn syntax_in_if<'a, T>(arena: &'a Arena, r: ParseResult<'a, T, SyntaxError<'a>>) -> (out:
    ParseResult<'a, T, EIf<'a>>)
    ensures
        out == syntax_in_if_of(r),
        same_but_error(r, out),
        r matches Err((_, e, s)) ==> out matches Err((_, e2, _)) && e2 == EIf::Syntax(
            &e,
            s.line,
            s.column,
        ),
{
    match r {
        Ok(ok) => Ok(ok),
        Err((p, e, s)) => Err((p, EIf::Syntax(alloc_in(arena, e), s.line, s.column), s)),
    }
}

/// What `syntax_in_pattern` makes of a result.
pub open spec fn syntax_in_pattern_of<'a, T>(r: ParseResult<'a, T, SyntaxError<'a>>) -> ParseResult<'a, T, EPattern<'a>> {
    match r {
        Ok(ok) => Ok(ok),
        Err((p, e, s)) => Err((p, EPattern::RecordSyntax(&e, s.line, s.column), s)),
    }
}

pub fn syntax_in_pattern<'a, T>(arena: &'a Arena, r: ParseResult<'a, T, SyntaxError<'a>>) -> (out:
    ParseResult<'a, T, EPattern<'a>>)
    ensures
        out == syntax_in_pattern_of(r),
        same_but_error(r, out),
        r matches Err((_, e, s)) ==> out matches Err((_, e2, _)) && e2 == EPattern::RecordSyntax(
            &e,
            s.line,
            s.column,
        ),
{
    match r {
        Ok(ok) => Ok(ok),
        Err((p, e, s)) => Err((p, EPattern::RecordSyntax(alloc_in(arena, e), s.line, s.column), s)),
    }
}

/// What `pattern_error` makes of a result.
pub open spec fn pattern_error_of<'a, T>(r: ParseResult<'a, T, EPattern<'a>>) -> ParseResult<'a, T, SyntaxError<'a>> {
    match r {
        Ok(ok) => Ok(ok),
        Err((p, e, s)) => Err((p, SyntaxError::Pattern(e), s)),
    }
}

pub fn pattern_error<'a, T>(r: ParseResult<'a, T, EPattern<'a>>) -> (out: ParseResult<
    'a,
    T,
    SyntaxError<'a>,
>)
    ensures
        out == pattern_error_of(r),
        same_but_error(r, out),
        r matches Err((_, e, _)) ==> out matches Err((_, e2, _)) && e2 == SyntaxError::Pattern(e),
{
    match r {
        Ok(ok) => Ok(ok),
        Err((p, e, s)) => Err((p, SyntaxError::Pattern(e), s)),
    }
}

/// What was read from `start` to `end`, with the region between the two.
pub fn located<'a, T>(start: &State<'a>, end: &State<'a>, value: T) -> (l: Located<T>)
    requires
        end.extends(*start),
    ensures
        l == (Located { region: end.span_from(*start), value }),
        l.region == end.span_from(*start),
        l.region.valid(),
        l.value == value,
{
    Located { region: end.region_since(start), value }
}

/// A result that lets the next alternative be tried: a failure without
/// progress. Every other result is final.
pub open spec fn gives_way<'a, T, E>(r: ParseResult<'a, T, E>) -> bool {
    r matches Err((p, _, _)) && p is NoProgress
}

/// `r` is what trying `first` and then, if it gives way, `second` comes
/// to, `r1` being what `first` handed back.
pub open spec fn first_that_holds<'a, T, E, F, G>(
    first: F,
    second: G,
    state: State<'a>,
    r1: ParseResult<'a, T, E>,
    r: ParseResult<'a, T, E>,
) -> bool where
    F: Fn(State<'a>) -> ParseResult<'a, T, E>,
    G: Fn(State<'a>) -> ParseResult<'a, T, E>,
 {
    call_ensures(first, (state,), r1) && if gives_way(r1) {
        call_ensures(second, (state,), r)
    } else {
        r == r1
    }
}

/// Tries `first`, and `second` only if `first` failed without progress.
///
/// What `first` hands back is final unless it is a failure without
/// progress: a success of `first`, and a failure of `first` with
/// progress, is the result, whatever `second` would have made of the
/// input.
pub fn one_of<'a, T, E, F, G>(first: F, second: G, state: State<'a>) -> (r: ParseResult<
    'a,
    T,
    E,
>) where
    F: Fn(State<'a>) -> ParseResult<'a, T, E>,
    G: Fn(State<'a>) -> ParseResult<'a, T, E>,

    requires
        call_requires(first, (state,)),
        call_requires(second, (state,)),
    ensures
        exists|r1: ParseResult<'a, T, E>| first_that_holds(first, second, state, r1, r),
{
    let r1 = first(state);
    let ghost first_result = r1;
    let r = match r1 {
        Err((Progress::NoProgress, _, _)) => second(state),
        other => other,
    };
    assert(first_that_holds(first, second, state, first_result, r));
    r
}

/// Goes on from the result `r1` of an alternative: tries `second` if
/// `r1` gives way, and lets `r1` stand if it does not.
pub fn or_else<'a, T, E, G>(r1: ParseResult<'a, T, E>, second: G, state: State<'a>) -> (r:
    ParseResult<'a, T, E>) where G: FnOnce(State<'a>) -> ParseResult<'a, T, E>
    requires
        gives_way(r1) ==> call_requires(second, (state,)),
    ensures
        if gives_way(r1) {
            call_ensures(second, (state,), r)
        } else {
            r == r1
        },
{
    match r1 {
        Err((Progress::NoProgress, _, _)) => second(state),
        other => other,
    }
}

/// If an alternative fails with progress, no later alternative is tried:
/// the failure is the result of the whole.
pub proof fn lemma_failure_with_progress_is_final<'a, T, E, F, G>(
    first: F,
    second: G,
    state: State<'a>,
    r1: ParseResult<'a, T, E>,
    r: ParseResult<'a, T, E>,
) where F: Fn(State<'a>) -> ParseResult<'a, T, E>, G: Fn(State<'a>) -> ParseResult<'a, T, E>
    requires
        first_that_holds(first, second, state, r1, r),
        r1 matches Err((p, _, _)) && p is MadeProgress,
    ensures
        r == r1,
{
}

/// Tries `parser`, and makes of any failure a failure without progress at
/// the cursor given: what `parser` consumed before it failed is given
/// back.
pub fn backtrackable<'a, T, E>(parser: impl Fn(State<'a>) -> ParseResult<'a, T, E>, state: State<'a>) -> (r:
    ParseResult<'a, T, E>)
    requires
        call_requires(parser, (state,)),
    ensures
        exists|r1: ParseResult<'a, T, E>|
            call_ensures(parser, (state,), r1) && r == match r1 {
                Ok(ok) => Ok::<_, (Progress, E, State<'a>)>(ok),
                Err((_, e, _)) => Err((Progress::NoProgress, e, state)),
            },
{
    match parser(state) {
        Ok(ok) => Ok(ok),
        Err((_, e, _)) => Err((Progress::NoProgress, e, state)),
    }
}

/// `r` is the outcome of reading a located expression at `state`: the
/// rules of every parser hold, and what was read lies in order between the
/// cursor given and the cursor handed back.
pub open spec fn reads_located_expr<'a>(
    r: ParseResult<'a, Located<Expr<'a>>, SyntaxError<'a>>,
    state: State<'a>,
) -> bool {
    moves_on(r, state) && (r matches Ok((p, e, s)) ==> p is MadeProgress && loc_expr_in(
        e,
        s.span_from(state),
    ))
}

/// A result with its expression located: the region runs from `start` to
/// the cursor of the result.
pub open spec fn locate_of<'a>(
    start: State<'a>,
    r: ParseResult<'a, Expr<'a>, SyntaxError<'a>>,
) -> ParseResult<'a, Located<Expr<'a>>, SyntaxError<'a>> {
    match r {
        Ok((p, e, s)) => Ok((p, Located { region: s.span_from(start), value: e }, s)),
        Err(e) => Err(e),
    }
}

/// Locates the expression of a result: its region runs from `start` to
/// the cursor of the result.
pub fn locate<'a>(start: State<'a>, r: ParseResult<'a, Expr<'a>, SyntaxError<'a>>) -> (out:
    ParseResult<'a, Located<Expr<'a>>, SyntaxError<'a>>)
    requires
        moves_on(r, start),
        r matches Ok((p, e, s)) ==> p is MadeProgress && expr_in(e, s.span_from(start)),
    ensures
        out == locate_of(start, r),
        reads_located_expr(out, start),
        gives_way(out) == gives_way(r),
        match (r, out) {
            (Ok((p1, e, s1)), Ok((p2, l, s2))) => p1 == p2 && s1 == s2 && l.value == e && l.region
                == s1.span_from(start),
            (Err(e1), Err(e2)) => e1 == e2,
            _ => false,
        },
{
    match r {
        Ok((p, e, s)) => Ok((p, located(&start, &s, e), s)),
        Err(e) => Err(e),
    }
}

} // verus!
