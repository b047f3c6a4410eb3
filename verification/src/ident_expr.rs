//! What an identifier at the start of an expression can begin.

use vstd::prelude::*;
use crate::arena::{alloc_in, Arena, List};
use crate::ast::{CalledVia, CommentOrNewline, Expr, Ident, Pattern};
use crate::blankspace::space0;
use crate::bounds::{
    expr_in, inside, lemma_loc_exprs_widen, lemma_loc_patterns_widen, lemma_pattern_widen,
    loc_expr_in, loc_exprs_in, loc_patterns_in, pattern_in,
};
use crate::combinators::{expr_error, located};
use crate::def::{
    parse_def_expr_help, parse_def_expr_help_at, parse_def_signature_help,
    parse_def_signature_help_at,
};
use crate::errors::{moves_on, EExpr, ParseResult, SyntaxError};
use crate::expr::{
    colon_with_indent_help, equals_with_indent_help, loc_function_args_help,
    loc_function_args_help_at,
};
use crate::ident::{at_ident, ident, ident_value};
use crate::pattern::{pattern_spaced_after, pattern_with_spaces_after};
use crate::record::sign_at;
use crate::region::{Located, Region};
use crate::state::{Progress, State};
use crate::to_pattern::{
    expr_of_ident, exprs_to_patterns, ident_to_expr, lemma_pattern_of_expr_in,
    lemma_patterns_of_exprs_in, pattern_from_ident, pattern_of_expr, pattern_of_ident,
    patterns_of_exprs,
};

verus! {

pub open spec fn assign_or_destructure_identifier_at<'a>(state: State<'a>) -> ParseResult<
    'a,
    Ident<'a>,
    EExpr<'a>,
> {
    match ident_value(state) {
        Some((id, s)) => Ok((Progress::MadeProgress, id, s)),
        None => Err((Progress::NoProgress, EExpr::Ident(state.line, state.column), state)),
    }
}

/// The region from the start of the first of `args` to the cursor `end`.
pub open spec fn args_region(args: List<Located<Expr>>, end: State) -> Region {
    match args {
        List::Cons(first, _) => Region::between(first.region.start(), end.position()),
        List::Nil => Region::between(end.position(), end.position()),
    }
}

/// What reading what begins with an identifier comes to.
#[verifier::opaque]
pub open spec fn ident_etc_help_at<'a>(min_indent: u16, state: State<'a>) -> ParseResult<
    'a,
    Expr<'a>,
    EExpr<'a>,
>
    decreases state.input@.len() - state.offset, 4nat,
{
    match ident_value(state) {
        None => Err((Progress::NoProgress, EExpr::Ident(state.line, state.column), state)),
        Some((id, s1)) => if !state.leads_to(s1) {
            arbitrary()
        } else {
            match loc_function_args_help_at(min_indent, s1) {
                Err((_, e, s)) => Err((Progress::MadeProgress, e, s)),
                Ok((_, args, s2)) => match sign_at(min_indent, s2) {
                    None => if args is Nil {
                        Ok((Progress::MadeProgress, expr_of_ident(id), s1))
                    } else {
                        Ok(
                            (
                                Progress::MadeProgress,
                                Expr::Apply(
                                    &(Located {
                                        region: s1.span_from(state),
                                        value: expr_of_ident(id),
                                    }),
                                    args,
                                    CalledVia::Space,
                                ),
                                s2,
                            ),
                        )
                    },
                    Some((spaces_before_sign, is_equals, sign_indent, s4)) => {
                        let bound = pattern_of_ident(
                            id,
                            s1.text(state.offset as int, s1.offset as int),
                        );
                        if is_equals {
                            if !(args is Nil) {
                                Err(
                                    (
                                        Progress::MadeProgress,
                                        EExpr::ElmStyleFunction(
                                            args_region(args, s2),
                                            s4.line,
                                            s4.column,
                                        ),
                                        s4,
                                    ),
                                )
                            } else {
                                match crate::blankspace::spaces_at(false, min_indent, s4) {
                                    Err((_, problem, s)) => Err(
                                        (
                                            Progress::MadeProgress,
                                            EExpr::space_of(
                                                problem,
                                                EExpr::IndentDefBody(s.line, s.column),
                                                s,
                                            ),
                                            s,
                                        ),
                                    ),
                                    Ok((_, spaces_after_equals, s5)) => if !state.leads_to(s5) {
                                        arbitrary()
                                    } else {
                                        match parse_def_expr_help_at(
                                            min_indent,
                                            s1.span_from(state).start_col,
                                            sign_indent,
                                            s5,
                                            pattern_spaced_after(
                                                spaces_before_sign,
                                                Located {
                                                    region: s1.span_from(state),
                                                    value: bound,
                                                },
                                            ),
                                            spaces_after_equals,
                                        ) {
                                            Ok((_, e, end)) => Ok((Progress::MadeProgress, e, end)),
                                            Err((_, e, s)) => Err((Progress::MadeProgress, e, s)),
                                        }
                                    },
                                }
                            }
                        } else if !(args is Nil) && patterns_of_exprs(args) is None {
                            Err(
                                (
                                    Progress::MadeProgress,
                                    EExpr::MalformedPattern(s4.line, s4.column),
                                    s4,
                                ),
                            )
                        } else if !state.leads_to(s4) {
                            arbitrary()
                        } else {
                            match parse_def_signature_help_at(
                                min_indent,
                                sign_indent,
                                s4,
                                pattern_spaced_after(
                                    spaces_before_sign,
                                    Located {
                                        region: s2.span_from(state),
                                        value: if args is Nil {
                                            bound
                                        } else {
                                            Pattern::Apply(
                                                &(Located {
                                                    region: s1.span_from(state),
                                                    value: bound,
                                                }),
                                                patterns_of_exprs(args)->0,
                                            )
                                        },
                                    },
                                ),
                            ) {
                                Ok((_, e, end)) => Ok((Progress::MadeProgress, e, end)),
                                Err((_, e, s)) => Err((Progress::MadeProgress, e, s)),
                            }
                        }
                    },
                },
            }
        },
    }
}

#[verifier::opaque]
pub open spec fn ident_etc_at<'a>(min_indent: u16, state: State<'a>) -> ParseResult<
    'a,
    Expr<'a>,
    SyntaxError<'a>,
>
    decreases state.input@.len() - state.offset, 5nat,
{
    crate::combinators::expr_error_of(ident_etc_help_at(min_indent, state))
}

/// Reads the identifier that an assignment or a destructure begins with.
pub fn assign_or_destructure_identifier<'a>(arena: &'a Arena, state: State<'a>) -> (r:
    ParseResult<'a, Ident<'a>, EExpr<'a>>)
    requires
        state.wf(),
    ensures
        r == assign_or_destructure_identifier_at(state),
        moves_on(r, state),
        r is Ok <==> at_ident(state),
        r matches Ok((p, id, s)) ==> p is MadeProgress && crate::ident::ident_ok(id) && s.line
            == state.line,
        r matches Err((p, e, _)) ==> p is NoProgress && e == EExpr::Ident(state.line, state.column),
{
    match ident(arena, state) {
        Some((id, s)) => Ok((Progress::MadeProgress, id, s)),
        None => Err((Progress::NoProgress, EExpr::Ident(state.line, state.column), state)),
    }
}

/// Reads what begins with an identifier, with the error of a whole parse.
pub fn ident_etc<'a>(min_indent: u16, arena: &'a Arena, state: State<'a>) -> (r: ParseResult<
    'a,
    Expr<'a>,
    SyntaxError<'a>,
>)
    requires
        state.wf(),
    ensures
        r == ident_etc_at(min_indent, state),
        moves_on(r, state),
        (r matches Err((p, _, _)) && p is NoProgress) <==> !at_ident(state),
        r matches Ok((p, e, s)) ==> p is MadeProgress && expr_in(e, s.span_from(state)),
    decreases state.input@.len() - state.offset, 5nat,
{
    reveal_with_fuel(crate::ident_expr::ident_etc_at, 1);
    reveal_with_fuel(crate::ident_expr::ident_etc_help_at, 1);
    expr_error(ident_etc_help(min_indent, arena, state))
}

/// The region from the start of the first of `args` to the cursor `end`.
fn region_of_args<'a>(args: &List<'a, Located<Expr<'a>>>, end: &State<'a>) -> (r: Region)
    ensures
        r == args_region(*args, *end),
        r == match *args {
            List::Cons(first, _) => Region::between(first.region.start(), end.position()),
            List::Nil => Region::between(end.position(), end.position()),
        },
{
    match *args {
        List::Cons(first, _) => Region {
            start_line: first.region.start_line,
            end_line: end.line,
            start_col: first.region.start_col,
            end_col: end.column,
        },
        List::Nil => Region {
            start_line: end.line,
            end_line: end.line,
            start_col: end.column,
            end_col: end.column,
        },
    }
}

/// Reads what begins with an identifier. An identifier like `foo` can be
/// any of these:
///
/// 1. a variable that stands alone, perhaps because an operator is next;
/// 2. the beginning of a function call, as in `foo bar baz`;
/// 3. the beginning of a definition, as in `foo =`;
/// 4. the beginning of a type annotation or alias, as in `foo :`.
///
/// Arguments with a `=` after them, as in `foo a b = ...`, are an error of
/// their own, for those who come from languages that define functions so.
pub fn ident_etc_help<'a>(min_indent: u16, arena: &'a Arena, state: State<'a>) -> (r: ParseResult<
    'a,
    Expr<'a>,
    EExpr<'a>,
>)
    requires
        state.wf(),
    ensures
        r == ident_etc_help_at(min_indent, state),
        moves_on(r, state),
        (r matches Err((p, _, _)) && p is NoProgress) <==> !at_ident(state),
        r matches Ok((p, e, s)) ==> p is MadeProgress && expr_in(e, s.span_from(state)),
        r matches Err((p, e, _)) ==> (p is NoProgress ==> e == EExpr::Ident(
            state.line,
            state.column,
        )),
    decreases state.input@.len() - state.offset, 4nat,
{
    reveal_with_fuel(crate::ident_expr::ident_etc_help_at, 1);
    reveal_with_fuel(crate::expr::loc_function_args_help_at, 1);
    reveal_with_fuel(crate::def::parse_def_expr_help_at, 1);
    reveal_with_fuel(crate::def::parse_def_signature_help_at, 1);
    let (_, id, s1) = match assign_or_destructure_identifier(arena, state) {
        Ok(ok) => ok,
        Err(e) => {
            return Err(e);
        },
    };
    let ident_region = s1.region_since(&state);
    // There may be function arguments after the identifier.
    let (_, args, s2) = match loc_function_args_help(min_indent, arena, s1) {
        Ok(ok) => ok,
        Err((_, e, s)) => {
            return Err((Progress::MadeProgress, e, s));
        },
    };
    proof {
        lemma_loc_exprs_widen(args, s2.span_from(s1), s2.span_from(state));
    }
    // There may also be a '=' or a ':' after it. The ':' may be there
    // because this is a type alias, as in `List a : ...`.
    let sign = match space0(min_indent, arena, s2) {
        Ok((_, spaces, s3)) => match equals_with_indent_help(s3) {
            Ok((_, indent, s4)) => Some((spaces, true, indent, s4)),
            Err(_) => match colon_with_indent_help(s3) {
                Ok((_, indent, s4)) => Some((spaces, false, indent, s4)),
                Err(_) => None,
            },
        },
        Err(_) => None,
    };
    match sign {
        None => {
            let value = ident_to_expr(arena, id);
            if args.is_empty() {
                // Nothing follows the identifier.
                proof {
                    crate::state::lemma_same_offset(s2, s1);
                }
                Ok((Progress::MadeProgress, value, s1))
            } else {
                // Arguments and nothing else.
                let loc_fn = Located { region: ident_region, value };
                let e = Expr::Apply(alloc_in(arena, loc_fn), args, CalledVia::Space);
                assert(expr_in(loc_fn.value, loc_fn.region));
                assert(expr_in(e, s2.span_from(state)));
                Ok((Progress::MadeProgress, e, s2))
            }
        },
        Some((spaces_before_sign, is_equals, sign_indent, s4)) => {
            let raw: &'a [u8] = s1.text_since(&state);
            let bound = pattern_from_ident(id, raw);
            if is_equals {
                if !args.is_empty() {
                    // Arguments with an '=' after them, as in
                    // `foo a b = ...`.
                    let region = region_of_args(&args, &s2);
                    return Err(
                        (
                            Progress::MadeProgress,
                            EExpr::ElmStyleFunction(region, s4.line, s4.column),
                            s4,
                        ),
                    );
                }
                // An '=' with no arguments before it.
                assert(pattern_in(bound, ident_region));
                let loc_pattern = pattern_with_spaces_after(
                    arena,
                    spaces_before_sign,
                    Located { region: ident_region, value: bound },
                );
                let def_start_col: u16 = ident_region.start_col;
                let (_, spaces_after_equals, s5) = match space0(min_indent, arena, s4) {
                    Ok(ok) => ok,
                    Err((_, problem, s)) => {
                        return Err(
                            (
                                Progress::MadeProgress,
                                EExpr::space(
                                    problem,
                                    EExpr::IndentDefBody(s.line, s.column),
                                    &s,
                                ),
                                s,
                            ),
                        );
                    },
                };
                match parse_def_expr_help(
                    min_indent,
                    def_start_col,
                    sign_indent,
                    arena,
                    s5,
                    loc_pattern,
                    spaces_after_equals,
                ) {
                    Ok((_, e, end)) => Ok((Progress::MadeProgress, e, end)),
                    Err((_, e, s)) => Err((Progress::MadeProgress, e, s)),
                }
            } else {
                // There may be arguments, but there is a ':' for sure:
                // this is an annotation or an alias.
                let whole = s2.region_since(&state);
                let annotated = if args.is_empty() {
                    assert(pattern_in(bound, whole));
                    bound
                } else {
                    // The arguments become the patterns of a tag's
                    // arguments. They are probably the variables of a
                    // type alias, as in `List a : ...`.
                    let arg_patterns = match exprs_to_patterns(arena, args) {
                        Ok(patterns) => patterns,
                        Err(_) => {
                            return Err(
                                (
                                    Progress::MadeProgress,
                                    EExpr::MalformedPattern(s4.line, s4.column),
                                    s4,
                                ),
                            );
                        },
                    };
                    proof {
                        lemma_patterns_of_exprs_in(args, whole);
                    }
                    let loc_bound = Located { region: ident_region, value: bound };
                    assert(pattern_in(loc_bound.value, loc_bound.region));
                    let applied = Pattern::Apply(alloc_in(arena, loc_bound), arg_patterns);
                    assert(pattern_in(applied, whole));
                    applied
                };
                let loc_pattern = pattern_with_spaces_after(
                    arena,
                    spaces_before_sign,
                    Located { region: whole, value: annotated },
                );
                match parse_def_signature_help(min_indent, sign_indent, arena, s4, loc_pattern) {
                    Ok((_, e, end)) => Ok((Progress::MadeProgress, e, end)),
                    Err((_, e, s)) => Err((Progress::MadeProgress, e, s)),
                }
            }
        },
    }
}

} // verus!
