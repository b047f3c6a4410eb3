//! The grammar of patterns.

use vstd::prelude::*;
use crate::arena::{alloc_in, Arena, List};
use crate::ast::{CommentOrNewline, Expr, Ident, Pattern};
use crate::blankspace::{slice_of, space0, space1, spaces_at};
use crate::bounds::{
    expr_in, inside, lemma_loc_patterns_widen, lemma_pattern_widen, loc_expr_in, loc_pattern_in,
    loc_patterns_in, pattern_in,
};
use crate::combinators::{located, syntax_in_pattern};
use crate::errors::{moves_on, EPattern, ParseResult};
use crate::expr::{loc_expr, loc_expr_at, spaced_before, CLOSE_PAREN, COLON, COMMA, OPEN_PAREN};
use crate::ident::{ident, ident_value, lowercase_at, lowercase_ident, take_word, word_end};
use crate::literal::{number_literal, string_literal, QUOTE, UNDERSCORE};
use crate::region::{Located, Region};
use crate::state::{lemma_same_line, Progress, State};
use crate::to_pattern::{pattern_from_ident, pattern_of_ident};
use crate::type_annotation::next_byte;
use crate::type_annotation::{CLOSE_BRACE, OPEN_BRACE, QUESTION};

verus! {

/// A pattern with the white space that was read before it, if any.
pub open spec fn pattern_spaced_before<'a>(
    spaces: &'a [CommentOrNewline<'a>],
    p: Located<Pattern<'a>>,
) -> Located<Pattern<'a>> {
    if spaces@.len() == 0 {
        p
    } else {
        Located { region: p.region, value: Pattern::SpaceBefore(&p.value, spaces) }
    }
}

/// A pattern with the white space that was read after it, if any.
pub open spec fn pattern_spaced_after<'a>(
    spaces: &'a [CommentOrNewline<'a>],
    p: Located<Pattern<'a>>,
) -> Located<Pattern<'a>> {
    if spaces@.len() == 0 {
        p
    } else {
        Located { region: p.region, value: Pattern::SpaceAfter(&p.value, spaces) }
    }
}

/// Wraps a pattern in the white space that was read before it, if any.
pub fn pattern_with_spaces_before<'a>(
    arena: &'a Arena,
    spaces: &'a [CommentOrNewline<'a>],
    p: Located<Pattern<'a>>,
) -> (r: Located<Pattern<'a>>)
    ensures
        r == pattern_spaced_before(spaces, p),
        r.region == p.region,
        r.value == if spaces@.len() == 0 {
            p.value
        } else {
            Pattern::SpaceBefore(&p.value, spaces)
        },
        pattern_in(p.value, p.region) ==> pattern_in(r.value, r.region),
{
    if spaces.len() == 0 {
        p
    } else {
        Located { region: p.region, value: Pattern::SpaceBefore(alloc_in(arena, p.value), spaces) }
    }
}

/// Wraps a pattern in the white space that was read after it, if any.
pub fn pattern_with_spaces_after<'a>(
    arena: &'a Arena,
    spaces: &'a [CommentOrNewline<'a>],
    p: Located<Pattern<'a>>,
) -> (r: Located<Pattern<'a>>)
    ensures
        r == pattern_spaced_after(spaces, p),
        r.region == p.region,
        r.value == if spaces@.len() == 0 {
            p.value
        } else {
            Pattern::SpaceAfter(&p.value, spaces)
        },
        pattern_in(p.value, p.region) ==> pattern_in(r.value, r.region),
{
    if spaces.len() == 0 {
        p
    } else {
        Located { region: p.region, value: Pattern::SpaceAfter(alloc_in(arena, p.value), spaces) }
    }
}

/// The underscore pattern at the cursor, with the cursor after it.
pub open spec fn underscore_at<'a>(state: State<'a>) -> Option<(Pattern<'a>, State<'a>)> {
    if state.at_byte(UNDERSCORE) {
        Some(
            (
                Pattern::Underscore(
                    state.text(state.offset + 1, word_end(state.input@, state.offset + 1)),
                ),
                state.at(word_end(state.input@, state.offset + 1)),
            ),
        )
    } else {
        None
    }
}

/// Reads `_`, with the name that may follow it at once: `_` or `_unused`.
pub fn underscore_pattern<'a>(state: State<'a>) -> (r: Option<(Pattern<'a>, State<'a>)>)
    requires
        state.wf(),
    ensures
        r == underscore_at(state),
        r is Some <==> state.at_byte(UNDERSCORE),
        r matches Some((p, s)) ==> s.extends(state) && s.offset > state.offset && s.line
            == state.line && (p matches Pattern::Underscore(name) && name@
            == state.input@.subrange(state.offset + 1, s.offset as int)),
{
    match state.peek() {
        Some(b) => {
            if b == UNDERSCORE {
                let end = take_word(state);
                proof {
                    crate::ident::lemma_word_line(state, end);
                    crate::state::lemma_state_at(state, end);
                }
                let name: &'a [u8] = slice_of(state.input, state.offset + 1, end.offset);
                Some((Pattern::Underscore(name), end))
            } else {
                None
            }
        },
        None => None,
    }
}

/// The number pattern at the cursor, with the cursor after it.
pub open spec fn number_pattern_at<'a>(state: State<'a>) -> Option<(Pattern<'a>, State<'a>)> {
    match crate::literal::number_value(state) {
        Some((e, s)) => match e {
            Expr::Num(text) => Some((Pattern::NumLiteral(text), s)),
            Expr::Float(text) => Some((Pattern::FloatLiteral(text), s)),
            Expr::NonBase10Int { string, base, is_negative } => Some(
                (Pattern::NonBase10Literal { string, base, is_negative }, s),
            ),
            _ => Some((Pattern::Malformed(s.text(state.offset as int, s.offset as int)), s)),
        },
        None => None,
    }
}

/// What reading a string literal as a pattern comes to.
pub open spec fn string_pattern_at<'a>(state: State<'a>) -> ParseResult<
    'a,
    Pattern<'a>,
    EPattern<'a>,
> {
    match crate::literal::string_value(state) {
        Ok((p, lit, s)) => Ok((p, Pattern::StrLiteral(lit), s)),
        Err((p, e, s)) => Err((p, EPattern::Str(e, state.line, state.column), s)),
    }
}

/// Reads a number literal as a pattern.
pub fn number_pattern<'a>(state: State<'a>) -> (r: Option<(Pattern<'a>, State<'a>)>)
    requires
        state.wf(),
    ensures
        r == number_pattern_at(state),
        r is Some <==> crate::literal::at_number(state),
        r matches Some((p, s)) ==> s.extends(state) && s.offset > state.offset && s.line
            == state.line && (p is NumLiteral || p is FloatLiteral || p is NonBase10Literal),
{
    match number_literal(state) {
        Some((e, s)) => match e {
            Expr::Num(text) => Some((Pattern::NumLiteral(text), s)),
            Expr::Float(text) => Some((Pattern::FloatLiteral(text), s)),
            Expr::NonBase10Int { string, base, is_negative } => Some(
                (Pattern::NonBase10Literal { string, base, is_negative }, s),
            ),
            _ => Some((Pattern::Malformed(s.text_since(&state)), s)),
        },
        None => None,
    }
}

/// Reads a string literal as a pattern.
pub fn string_pattern<'a>(arena: &'a Arena, state: State<'a>) -> (r: ParseResult<
    'a,
    Pattern<'a>,
    EPattern<'a>,
>)
    requires
        state.wf(),
    ensures
        r == string_pattern_at(state),
        moves_on(r, state),
        (r matches Err((p, _, _)) && p is NoProgress) <==> !state.at_byte(QUOTE),
        r matches Ok((p, v, s)) ==> p is MadeProgress && v is StrLiteral && s.line == state.line,
{
    match string_literal(arena, state) {
        Ok((p, lit, s)) => Ok((p, Pattern::StrLiteral(lit), s)),
        Err((p, e, s)) => Err((p, EPattern::Str(e, state.line, state.column), s)),
    }
}

/// What reading a pattern in parentheses comes to.
#[verifier::opaque]
pub open spec fn loc_pattern_in_parens_at<'a>(min_indent: u16, state: State<'a>) -> ParseResult<
    'a,
    Located<Pattern<'a>>,
    EPattern<'a>,
>
    decreases state.input@.len() - state.offset, 4nat,
{
    match state.spec_word1(OPEN_PAREN) {
        None => Err((Progress::NoProgress, EPattern::Start(state.line, state.column), state)),
        Some(s1) => match spaces_at(false, min_indent, s1) {
            Err((_, problem, s)) => Err(
                (
                    Progress::MadeProgress,
                    EPattern::space_of(problem, EPattern::IndentStart(s.line, s.column), s),
                    s,
                ),
            ),
            Ok((_, spaces_before, s2)) => if !state.leads_to(s2) {
                arbitrary()
            } else {
                match loc_pattern_at(min_indent, s2) {
                    Err((_, e, s)) => Err((Progress::MadeProgress, e, s)),
                    Ok((_, inner, s3)) => match spaces_at(false, min_indent, s3) {
                        Err((_, problem, s)) => Err(
                            (
                                Progress::MadeProgress,
                                EPattern::space_of(
                                    problem,
                                    EPattern::IndentEnd(s.line, s.column),
                                    s,
                                ),
                                s,
                            ),
                        ),
                        Ok((_, spaces_after, s4)) => match s4.spec_word1(CLOSE_PAREN) {
                            Some(end) => Ok(
                                (
                                    Progress::MadeProgress,
                                    pattern_spaced_after(
                                        spaces_after,
                                        pattern_spaced_before(spaces_before, inner),
                                    ),
                                    end,
                                ),
                            ),
                            None => Err(
                                (
                                    Progress::MadeProgress,
                                    EPattern::InParensEnd(s4.line, s4.column),
                                    s4,
                                ),
                            ),
                        },
                    },
                }
            },
        },
    }
}

/// Reads a pattern in parentheses, with white space allowed inside them.
pub fn loc_pattern_in_parens<'a>(min_indent: u16, arena: &'a Arena, state: State<'a>) -> (r:
    ParseResult<'a, Located<Pattern<'a>>, EPattern<'a>>)
    requires
        state.wf(),
    ensures
        r == loc_pattern_in_parens_at(min_indent, state),
        moves_on(r, state),
        (r matches Err((p, _, _)) && p is NoProgress) <==> !state.at_byte(OPEN_PAREN),
        r matches Ok((p, v, s)) ==> p is MadeProgress && loc_pattern_in(v, s.span_from(state)),
    decreases state.input@.len() - state.offset, 4nat,
{
    reveal_with_fuel(crate::pattern::loc_pattern_in_parens_at, 1);
    reveal_with_fuel(crate::pattern::loc_pattern_at, 1);
    let s1 = match state.word1(OPEN_PAREN) {
        Some(s) => s,
        None => {
            return Err((Progress::NoProgress, EPattern::Start(state.line, state.column), state));
        },
    };
    let (_, spaces_before, s2) = match space0(min_indent, arena, s1) {
        Ok(ok) => ok,
        Err((_, problem, s)) => {
            return Err(
                (
                    Progress::MadeProgress,
                    EPattern::space(problem, EPattern::IndentStart(s.line, s.column), &s),
                    s,
                ),
            );
        },
    };
    let (_, inner, s3) = match loc_pattern(min_indent, arena, s2) {
        Ok(ok) => ok,
        Err((_, e, s)) => {
            return Err((Progress::MadeProgress, e, s));
        },
    };
    let (_, spaces_after, s4) = match space0(min_indent, arena, s3) {
        Ok(ok) => ok,
        Err((_, problem, s)) => {
            return Err(
                (
                    Progress::MadeProgress,
                    EPattern::space(problem, EPattern::IndentEnd(s.line, s.column), &s),
                    s,
                ),
            );
        },
    };
    match s4.word1(CLOSE_PAREN) {
        Some(end) => {
            let inner = pattern_with_spaces_after(
                arena,
                spaces_after,
                pattern_with_spaces_before(arena, spaces_before, inner),
            );
            Ok((Progress::MadeProgress, inner, end))
        },
        None => Err((Progress::MadeProgress, EPattern::InParensEnd(s4.line, s4.column), s4)),
    }
}

/// What reading a record destructure comes to.
#[verifier::opaque]
pub open spec fn record_destructure_at<'a>(min_indent: u16, state: State<'a>) -> ParseResult<
    'a,
    Pattern<'a>,
    EPattern<'a>,
>
    decreases state.input@.len() - state.offset, 4nat,
{
    match state.spec_word1(OPEN_BRACE) {
        None => Err((Progress::NoProgress, EPattern::RecordOpen(state.line, state.column), state)),
        Some(s1) => if !state.leads_to(s1) {
            arbitrary()
        } else {
            match record_destructure_fields_at(min_indent, s1) {
                Ok((_, fields, end)) => Ok(
                    (Progress::MadeProgress, Pattern::RecordDestructure(fields), end),
                ),
                Err((_, e, s)) => Err((Progress::MadeProgress, e, s)),
            }
        },
    }
}

/// The fields of a record destructure and the closing brace, from the
/// cursor after the opening brace or after a comma.
#[verifier::opaque]
pub open spec fn record_destructure_fields_at<'a>(min_indent: u16, state: State<'a>) -> ParseResult<
    'a,
    List<'a, Located<Pattern<'a>>>,
    EPattern<'a>,
>
    decreases state.input@.len() - state.offset, 14nat,
{
    match spaces_at(false, min_indent, state) {
        Err((_, problem, s)) => Err(
            (
                Progress::MadeProgress,
                EPattern::space_of(problem, EPattern::IndentEnd(s.line, s.column), s),
                s,
            ),
        ),
        Ok((_, spaces_before, s1)) => match s1.spec_word1(CLOSE_BRACE) {
            Some(end) => Ok((Progress::MadeProgress, List::Nil, end)),
            None => match lowercase_at(s1) {
                None => Err(
                    (Progress::MadeProgress, EPattern::RecordField(s1.line, s1.column), s1),
                ),
                Some((label, s2)) => match spaces_at(false, min_indent, s2) {
                    Err((_, problem, s)) => Err(
                        (
                            Progress::MadeProgress,
                            EPattern::space_of(problem, EPattern::IndentEnd(s.line, s.column), s),
                            s,
                        ),
                    ),
                    Ok((_, label_spaces, s3)) => if next_byte(s3) == COLON {
                        match spaces_at(false, min_indent, s3.after(1)) {
                            Err((_, problem, s)) => Err(
                                (
                                    Progress::MadeProgress,
                                    EPattern::space_of(
                                        problem,
                                        EPattern::IndentEnd(s.line, s.column),
                                        s,
                                    ),
                                    s,
                                ),
                            ),
                            Ok((_, value_spaces, s5)) => if !state.leads_to(s5) {
                                arbitrary()
                            } else {
                                match loc_pattern_at(min_indent, s5) {
                                    Err((_, e, s)) => Err((Progress::MadeProgress, e, s)),
                                    Ok((_, value, s6)) => if !state.leads_to(s6) {
                                        arbitrary()
                                    } else {
                                        more_destructure_fields_at(
                                            min_indent,
                                            pattern_spaced_before(
                                                spaces_before,
                                                Located {
                                                    region: s6.span_from(s1),
                                                    value: Pattern::RequiredField(
                                                        label,
                                                        &pattern_spaced_before(value_spaces, value),
                                                    ),
                                                },
                                            ),
                                            s6,
                                        )
                                    },
                                }
                            },
                        }
                    } else if next_byte(s3) == QUESTION {
                        match spaces_at(false, min_indent, s3.after(1)) {
                            Err((_, problem, s)) => Err(
                                (
                                    Progress::MadeProgress,
                                    EPattern::space_of(
                                        problem,
                                        EPattern::IndentEnd(s.line, s.column),
                                        s,
                                    ),
                                    s,
                                ),
                            ),
                            Ok((_, value_spaces, s5)) => if !state.leads_to(s5) {
                                arbitrary()
                            } else {
                                match crate::combinators::syntax_in_pattern_of(
                                    loc_expr_at(min_indent, s5),
                                ) {
                                    Err((_, e, s)) => Err((Progress::MadeProgress, e, s)),
                                    Ok((_, value, s6)) => if !state.leads_to(s6) {
                                        arbitrary()
                                    } else {
                                        more_destructure_fields_at(
                                            min_indent,
                                            pattern_spaced_before(
                                                spaces_before,
                                                Located {
                                                    region: s6.span_from(s1),
                                                    value: Pattern::OptionalField(
                                                        label,
                                                        &spaced_before(value_spaces, value),
                                                    ),
                                                },
                                            ),
                                            s6,
                                        )
                                    },
                                }
                            },
                        }
                    } else if !state.leads_to(s3) {
                        arbitrary()
                    } else {
                        more_destructure_fields_at(
                            min_indent,
                            pattern_spaced_before(
                                spaces_before,
                                pattern_spaced_after(
                                    label_spaces,
                                    Located {
                                        region: s2.span_from(s1),
                                        value: Pattern::Identifier(label),
                                    },
                                ),
                            ),
                            s3,
                        )
                    },
                },
            },
        },
    }
}

/// The fields of a record destructure of which `field` is the first, from
/// the cursor after that field: a comma and further fields, or the closing
/// brace.
#[verifier::opaque]
pub open spec fn more_destructure_fields_at<'a>(
    min_indent: u16,
    field: Located<Pattern<'a>>,
    state: State<'a>,
) -> ParseResult<'a, List<'a, Located<Pattern<'a>>>, EPattern<'a>>
    decreases state.input@.len() - state.offset, 15nat,
{
    match spaces_at(false, min_indent, state) {
        Err((_, problem, s)) => Err(
            (
                Progress::MadeProgress,
                EPattern::space_of(problem, EPattern::IndentEnd(s.line, s.column), s),
                s,
            ),
        ),
        Ok((_, _, s7)) => match s7.spec_word1(COMMA) {
            Some(s8) => if !state.leads_to(s8) {
                arbitrary()
            } else {
                match record_destructure_fields_at(min_indent, s8) {
                    Ok((_, rest, end)) => Ok(
                        (Progress::MadeProgress, List::Cons(&field, &rest), end),
                    ),
                    Err((_, e, s)) => Err((Progress::MadeProgress, e, s)),
                }
            },
            None => match s7.spec_word1(CLOSE_BRACE) {
                Some(end) => Ok((Progress::MadeProgress, List::Cons(&field, &List::Nil), end)),
                None => Err((Progress::MadeProgress, EPattern::RecordEnd(s7.line, s7.column), s7)),
            },
        },
    }
}

/// Reads a record destructure: `{`, fields with commas between them and,
/// if one likes, after the last, and `}`. A field is a label alone, or
/// `label : pattern`, or `label ? default`.
pub fn record_destructure<'a>(min_indent: u16, arena: &'a Arena, state: State<'a>) -> (r:
    ParseResult<'a, Pattern<'a>, EPattern<'a>>)
    requires
        state.wf(),
    ensures
        r == record_destructure_at(min_indent, state),
        moves_on(r, state),
        (r matches Err((p, _, _)) && p is NoProgress) <==> !state.at_byte(OPEN_BRACE),
        r matches Ok((p, v, s)) ==> p is MadeProgress && pattern_in(v, s.span_from(state))
            && v is RecordDestructure,
    decreases state.input@.len() - state.offset, 4nat,
{
    reveal_with_fuel(crate::pattern::record_destructure_at, 1);
    reveal_with_fuel(crate::pattern::record_destructure_fields_at, 1);
    let s1 = match state.word1(OPEN_BRACE) {
        Some(s) => s,
        None => {
            return Err(
                (Progress::NoProgress, EPattern::RecordOpen(state.line, state.column), state),
            );
        },
    };
    match record_destructure_fields(min_indent, arena, s1) {
        Ok((_, fields, end)) => {
            proof {
                lemma_loc_patterns_widen(fields, end.span_from(s1), end.span_from(state));
            }
            Ok((Progress::MadeProgress, Pattern::RecordDestructure(fields), end))
        },
        Err((_, e, s)) => Err((Progress::MadeProgress, e, s)),
    }
}

/// Reads the fields of a record destructure and the closing brace, from
/// the cursor after the opening brace or after a comma.
fn record_destructure_fields<'a>(min_indent: u16, arena: &'a Arena, state: State<'a>) -> (r:
    ParseResult<'a, List<'a, Located<Pattern<'a>>>, EPattern<'a>>)
    requires
        state.wf(),
    ensures
        r == record_destructure_fields_at(min_indent, state),
        moves_on(r, state),
        r matches Ok((p, v, s)) ==> p is MadeProgress && loc_patterns_in(v, s.span_from(state)),
        r matches Err((p, _, _)) ==> p is MadeProgress,
    decreases state.input@.len() - state.offset, 14nat,
{
    reveal_with_fuel(crate::pattern::record_destructure_fields_at, 1);
    reveal_with_fuel(crate::pattern::loc_pattern_at, 1);
    reveal_with_fuel(crate::pattern::more_destructure_fields_at, 1);
    reveal_with_fuel(crate::expr::loc_expr_at, 1);
    let (_, spaces_before, s1) = match space0(min_indent, arena, state) {
        Ok(ok) => ok,
        Err((_, problem, s)) => {
            return Err(
                (
                    Progress::MadeProgress,
                    EPattern::space(problem, EPattern::IndentEnd(s.line, s.column), &s),
                    s,
                ),
            );
        },
    };
    if let Some(end) = s1.word1(CLOSE_BRACE) {
        assert(loc_patterns_in(List::Nil, end.span_from(state)));
        return Ok((Progress::MadeProgress, List::Nil, end));
    }
    let (label, s2) = match lowercase_ident(s1) {
        Some(found) => found,
        None => {
            return Err((Progress::MadeProgress, EPattern::RecordField(s1.line, s1.column), s1));
        },
    };
    let (_, label_spaces, s3) = match space0(min_indent, arena, s2) {
        Ok(ok) => ok,
        Err((_, problem, s)) => {
            return Err(
                (
                    Progress::MadeProgress,
                    EPattern::space(problem, EPattern::IndentEnd(s.line, s.column), &s),
                    s,
                ),
            );
        },
    };
    let separator: u8 = match s3.peek() {
        Some(b) => b,
        None => 0,
    };
    let (field, s6) = if separator == COLON {
        let s4 = s3.advance();
        let (_, value_spaces, s5) = match space0(min_indent, arena, s4) {
            Ok(ok) => ok,
            Err((_, problem, s)) => {
                return Err(
                    (
                        Progress::MadeProgress,
                        EPattern::space(problem, EPattern::IndentEnd(s.line, s.column), &s),
                        s,
                    ),
                );
            },
        };
        let (_, value, s6) = match loc_pattern(min_indent, arena, s5) {
            Ok(ok) => ok,
            Err((_, e, s)) => {
                return Err((Progress::MadeProgress, e, s));
            },
        };
        let value = pattern_with_spaces_before(arena, value_spaces, value);
        let field = Pattern::RequiredField(label, alloc_in(arena, value));
        assert(pattern_in(field, s6.span_from(s1)));
        (located(&s1, &s6, field), s6)
    } else if separator == QUESTION {
        let s4 = s3.advance();
        let (_, value_spaces, s5) = match space0(min_indent, arena, s4) {
            Ok(ok) => ok,
            Err((_, problem, s)) => {
                return Err(
                    (
                        Progress::MadeProgress,
                        EPattern::space(problem, EPattern::IndentEnd(s.line, s.column), &s),
                        s,
                    ),
                );
            },
        };
        let (_, value, s6) = match syntax_in_pattern(arena, loc_expr(min_indent, arena, s5)) {
            Ok(ok) => ok,
            Err((_, e, s)) => {
                return Err((Progress::MadeProgress, e, s));
            },
        };
        let value = crate::expr::with_spaces_before(arena, value_spaces, value);
        let field = Pattern::OptionalField(label, alloc_in(arena, value));
        assert(pattern_in(field, s6.span_from(s1)));
        (located(&s1, &s6, field), s6)
    } else {
        let field = Pattern::Identifier(label);
        assert(pattern_in(field, s2.span_from(s1)));
        (pattern_with_spaces_after(arena, label_spaces, located(&s1, &s2, field)), s3)
    };
    let field = pattern_with_spaces_before(arena, spaces_before, field);
    let r = more_destructure_fields(min_indent, arena, field, Ghost(s1), s6);
    proof {
        if let Ok((_, fields, end)) = r {
            lemma_loc_patterns_widen(fields, end.span_from(s1), end.span_from(state));
        }
    }
    r
}

/// Reads the fields of a record destructure of which `field` is the
/// first, from the cursor after that field: a comma and further fields, or
/// the closing brace. `field_start` is where `field` starts.
fn more_destructure_fields<'a>(
    min_indent: u16,
    arena: &'a Arena,
    field: Located<Pattern<'a>>,
    Ghost(field_start): Ghost<State<'a>>,
    state: State<'a>,
) -> (r: ParseResult<'a, List<'a, Located<Pattern<'a>>>, EPattern<'a>>)
    requires
        state.wf(),
        state.extends(field_start),
        loc_pattern_in(field, state.span_from(field_start)),
    ensures
        moves_on(r, state),
        r == more_destructure_fields_at(min_indent, field, state),
        r matches Ok((p, v, s)) ==> p is MadeProgress && loc_patterns_in(
            v,
            s.span_from(field_start),
        ),
        r matches Err((p, _, _)) ==> p is MadeProgress,
    decreases state.input@.len() - state.offset, 15nat,
{
    reveal_with_fuel(crate::pattern::more_destructure_fields_at, 1);
    reveal_with_fuel(crate::pattern::record_destructure_fields_at, 1);
    let (_, _, s7) = match space0(min_indent, arena, state) {
        Ok(ok) => ok,
        Err((_, problem, s)) => {
            return Err(
                (
                    Progress::MadeProgress,
                    EPattern::space(problem, EPattern::IndentEnd(s.line, s.column), &s),
                    s,
                ),
            );
        },
    };
    match s7.word1(COMMA) {
        Some(s8) => match record_destructure_fields(min_indent, arena, s8) {
            Ok((_, rest, end)) => {
                let fields = List::cons(arena, field, rest);
                proof {
                    lemma_loc_patterns_widen(rest, end.span_from(s8), end.span_from(field_start));
                    assert(loc_patterns_in(fields, end.span_from(field_start)));
                }
                Ok((Progress::MadeProgress, fields, end))
            },
            Err((_, e, s)) => Err((Progress::MadeProgress, e, s)),
        },
        None => match s7.word1(CLOSE_BRACE) {
            Some(end) => {
                let fields = List::cons(arena, field, List::Nil);
                proof {
                    assert(loc_patterns_in(List::Nil, end.span_from(field_start)));
                    assert(loc_patterns_in(fields, end.span_from(field_start)));
                }
                Ok((Progress::MadeProgress, fields, end))
            },
            None => Err((Progress::MadeProgress, EPattern::RecordEnd(s7.line, s7.column), s7)),
        },
    }
}

/// What reading a pattern that begins with an identifier comes to.
#[verifier::opaque]
pub open spec fn loc_ident_pattern_at<'a>(
    min_indent: u16,
    can_have_arguments: bool,
    state: State<'a>,
) -> ParseResult<'a, Located<Pattern<'a>>, EPattern<'a>>
    decreases state.input@.len() - state.offset, 4nat,
{
    match ident_value(state) {
        None => Err((Progress::NoProgress, EPattern::Start(state.line, state.column), state)),
        Some((id, s1)) => {
            let head = Located {
                region: s1.span_from(state),
                value: pattern_of_ident(id, s1.text(state.offset as int, s1.offset as int)),
            };
            if !((id is GlobalTag || id is PrivateTag) && can_have_arguments) {
                Ok((Progress::MadeProgress, head, s1))
            } else if !state.leads_to(s1) {
                arbitrary()
            } else {
                match tag_pattern_args_at(min_indent, s1) {
                    Ok((_, args, end)) => if args is Nil {
                        Ok((Progress::MadeProgress, head, s1))
                    } else {
                        Ok(
                            (
                                Progress::MadeProgress,
                                Located {
                                    region: end.span_from(state),
                                    value: Pattern::Apply(&head, args),
                                },
                                end,
                            ),
                        )
                    },
                    Err((_, e, s)) => Err((Progress::MadeProgress, e, s)),
                }
            }
        },
    }
}

/// The patterns of the arguments of a tag, as far as they go.
#[verifier::opaque]
pub open spec fn tag_pattern_args_at<'a>(min_indent: u16, state: State<'a>) -> ParseResult<
    'a,
    List<'a, Located<Pattern<'a>>>,
    EPattern<'a>,
>
    decreases state.input@.len() - state.offset, 14nat,
{
    match spaces_at(true, min_indent, state) {
        Err(_) => Ok((Progress::NoProgress, List::Nil, state)),
        Ok((_, spaces, s1)) => if !state.leads_to(s1) {
            arbitrary()
        } else {
            match any_pattern_at(min_indent, false, s1) {
                Err((Progress::MadeProgress, e, s)) => Err((Progress::MadeProgress, e, s)),
                Err((Progress::NoProgress, _, _)) => Ok((Progress::NoProgress, List::Nil, state)),
                Ok((_, arg, s2)) => if !state.leads_to(s2) {
                    arbitrary()
                } else {
                    match tag_pattern_args_at(min_indent, s2) {
                        Ok((_, rest, end)) => Ok(
                            (
                                Progress::MadeProgress,
                                List::Cons(&pattern_spaced_before(spaces, arg), &rest),
                                end,
                            ),
                        ),
                        Err(e) => Err(e),
                    }
                },
            }
        },
    }
}

/// What reading an underscore pattern and locating it comes to.
pub open spec fn located_underscore_at<'a>(state: State<'a>) -> ParseResult<
    'a,
    Located<Pattern<'a>>,
    EPattern<'a>,
> {
    match underscore_at(state) {
        Some((v, s)) => Ok(
            (Progress::MadeProgress, Located { region: s.span_from(state), value: v }, s),
        ),
        None => Err((Progress::NoProgress, EPattern::Start(state.line, state.column), state)),
    }
}

/// What a result comes to when the pattern it holds is located from
/// `start` to its cursor.
pub open spec fn locate_pattern<'a>(
    start: State<'a>,
    r: ParseResult<'a, Pattern<'a>, EPattern<'a>>,
) -> ParseResult<'a, Located<Pattern<'a>>, EPattern<'a>> {
    match r {
        Ok((p, v, s)) => Ok((p, Located { region: s.span_from(start), value: v }, s)),
        Err(e) => Err(e),
    }
}

/// What reading a pattern comes to: a pattern in parentheses, an
/// underscore, an identifier or a tag, with its arguments if
/// `tags_have_arguments` allows them, a record destructure, a string or a
/// number, the first of them in this order that does not fail without
/// progress.
#[verifier::opaque]
pub open spec fn any_pattern_at<'a>(
    min_indent: u16,
    tags_have_arguments: bool,
    state: State<'a>,
) -> ParseResult<'a, Located<Pattern<'a>>, EPattern<'a>>
    decreases state.input@.len() - state.offset, 7nat,
{
    let in_parens = loc_pattern_in_parens_at(min_indent, state);
    if !crate::combinators::gives_way(in_parens) {
        match in_parens {
            Ok((p, v, s)) => Ok((p, Located { region: s.span_from(state), value: v.value }, s)),
            Err(e) => Err(e),
        }
    } else if !crate::combinators::gives_way(located_underscore_at(state)) {
        located_underscore_at(state)
    } else {
        let from_ident = loc_ident_pattern_at(min_indent, tags_have_arguments, state);
        if !crate::combinators::gives_way(from_ident) {
            from_ident
        } else {
            let record = locate_pattern(state, record_destructure_at(min_indent, state));
            if !crate::combinators::gives_way(record) {
                record
            } else {
                let string = locate_pattern(state, string_pattern_at(state));
                if !crate::combinators::gives_way(string) {
                    string
                } else {
                    match number_pattern_at(state) {
                        Some((v, s)) => Ok(
                            (
                                Progress::MadeProgress,
                                Located { region: s.span_from(state), value: v },
                                s,
                            ),
                        ),
                        None => Err(
                            (
                                Progress::NoProgress,
                                EPattern::Start(state.line, state.column),
                                state,
                            ),
                        ),
                    }
                }
            }
        }
    }
}

/// What reading a pattern comes to.
#[verifier::opaque]
pub open spec fn loc_pattern_at<'a>(min_indent: u16, state: State<'a>) -> ParseResult<
    'a,
    Located<Pattern<'a>>,
    EPattern<'a>,
>
    decreases state.input@.len() - state.offset, 8nat,
{
    any_pattern_at(min_indent, true, state)
}

/// What reading a parameter of a closure, or the pattern that a
/// definition binds, comes to: an identifier or a tag with its arguments,
/// an underscore, a record destructure, or a pattern in parentheses, the
/// first of them in this order that does not fail without progress.
#[verifier::opaque]
pub open spec fn loc_closure_param_at<'a>(min_indent: u16, state: State<'a>) -> ParseResult<
    'a,
    Located<Pattern<'a>>,
    EPattern<'a>,
>
    decreases state.input@.len() - state.offset, 8nat,
{
    let from_ident = loc_ident_pattern_at(min_indent, true, state);
    if !crate::combinators::gives_way(from_ident) {
        from_ident
    } else if !crate::combinators::gives_way(located_underscore_at(state)) {
        located_underscore_at(state)
    } else {
        let record = locate_pattern(state, record_destructure_at(min_indent, state));
        if !crate::combinators::gives_way(record) {
            record
        } else {
            match loc_pattern_in_parens_at(min_indent, state) {
                Err((Progress::NoProgress, _, _)) => Err(
                    (Progress::NoProgress, EPattern::Start(state.line, state.column), state),
                ),
                Err(e) => Err(e),
                Ok((p, v, s)) => Ok(
                    (p, Located { region: s.span_from(state), value: v.value }, s),
                ),
            }
        }
    }
}

/// Reads a pattern that begins with an identifier: a variable, or a tag
/// with, if `can_have_arguments` allows them, the patterns of its
/// arguments after it.
pub fn loc_ident_pattern<'a>(
    min_indent: u16,
    can_have_arguments: bool,
    arena: &'a Arena,
    state: State<'a>,
) -> (r: ParseResult<'a, Located<Pattern<'a>>, EPattern<'a>>)
    requires
        state.wf(),
    ensures
        r == loc_ident_pattern_at(min_indent, can_have_arguments, state),
        moves_on(r, state),
        (r matches Err((p, _, _)) && p is NoProgress) <==> !crate::ident::at_ident(state),
        r matches Ok((p, v, s)) ==> p is MadeProgress && loc_pattern_in(v, s.span_from(state))
            && v.region.start() == state.position(),
    decreases state.input@.len() - state.offset, 4nat,
{
    reveal_with_fuel(crate::pattern::loc_ident_pattern_at, 1);
    reveal_with_fuel(crate::pattern::tag_pattern_args_at, 1);
    let (id, s1) = match ident(arena, state) {
        Some(found) => found,
        None => {
            return Err((Progress::NoProgress, EPattern::Start(state.line, state.column), state));
        },
    };
    let raw: &'a [u8] = s1.text_since(&state);
    let head = located(&state, &s1, pattern_from_ident(id, raw));
    let is_tag: bool = match id {
        Ident::GlobalTag(_) => true,
        Ident::PrivateTag(_) => true,
        _ => false,
    };
    if !(is_tag && can_have_arguments) {
        return Ok((Progress::MadeProgress, head, s1));
    }
    match tag_pattern_args(min_indent, arena, s1) {
        Ok((_, args, end)) => {
            if args.is_empty() {
                Ok((Progress::MadeProgress, head, s1))
            } else {
                proof {
                    lemma_loc_patterns_widen(args, end.span_from(s1), end.span_from(state));
                }
                let applied = Pattern::Apply(alloc_in(arena, head), args);
                assert(pattern_in(head.value, head.region));
                assert(inside(end.span_from(state), head.region));
                assert(pattern_in(applied, end.span_from(state)));
                Ok((Progress::MadeProgress, located(&state, &end, applied), end))
            }
        },
        Err((_, e, s)) => Err((Progress::MadeProgress, e, s)),
    }
}

/// Reads the patterns of the arguments of a tag, as far as they go: each
/// is white space and then a pattern that can be an argument. White space
/// that no argument follows is left unread.
fn tag_pattern_args<'a>(min_indent: u16, arena: &'a Arena, state: State<'a>) -> (r: ParseResult<
    'a,
    List<'a, Located<Pattern<'a>>>,
    EPattern<'a>,
>)
    requires
        state.wf(),
    ensures
        r == tag_pattern_args_at(min_indent, state),
        moves_on(r, state),
        r matches Ok((p, args, s)) ==> loc_patterns_in(args, s.span_from(state)) && (args is Nil
            <==> p is NoProgress),
        r matches Err((p, _, _)) ==> p is MadeProgress,
    decreases state.input@.len() - state.offset, 14nat,
{
    reveal_with_fuel(crate::pattern::tag_pattern_args_at, 1);
    reveal_with_fuel(crate::pattern::any_pattern_at, 1);
    assert(loc_patterns_in(List::Nil, state.span_from(state)));
    let (spaces, s1) = match space1(min_indent, arena, state) {
        Ok((_, spaces, s)) => (spaces, s),
        Err(_) => {
            return Ok((Progress::NoProgress, List::Nil, state));
        },
    };
    let (arg, s2) = match loc_tag_pattern_arg(min_indent, arena, s1) {
        Ok((_, arg, s)) => (arg, s),
        Err((Progress::MadeProgress, e, s)) => {
            return Err((Progress::MadeProgress, e, s));
        },
        Err((Progress::NoProgress, _, _)) => {
            return Ok((Progress::NoProgress, List::Nil, state));
        },
    };
    let arg = pattern_with_spaces_before(arena, spaces, arg);
    match tag_pattern_args(min_indent, arena, s2) {
        Ok((_, rest, end)) => {
            let args = List::cons(arena, arg, rest);
            proof {
                lemma_loc_patterns_widen(rest, end.span_from(s2), end.span_from(state));
                assert(loc_patterns_in(args, end.span_from(state)));
            }
            Ok((Progress::MadeProgress, args, end))
        },
        Err(e) => Err(e),
    }
}

/// Reads a pattern that is an argument of a tag: like any pattern, but a
/// tag takes no arguments of its own here.
pub fn loc_tag_pattern_arg<'a>(min_indent: u16, arena: &'a Arena, state: State<'a>) -> (r:
    ParseResult<'a, Located<Pattern<'a>>, EPattern<'a>>)
    requires
        state.wf(),
    ensures
        r == any_pattern_at(min_indent, false, state),
        moves_on(r, state),
        r matches Ok((p, v, s)) ==> p is MadeProgress && loc_pattern_in(v, s.span_from(state))
            && v.region.start() == state.position(),
    decreases state.input@.len() - state.offset, 8nat,
{
    reveal_with_fuel(crate::pattern::any_pattern_at, 1);
    reveal_with_fuel(crate::pattern::loc_pattern_in_parens_at, 1);
    reveal_with_fuel(crate::pattern::loc_ident_pattern_at, 1);
    reveal_with_fuel(crate::pattern::record_destructure_at, 1);
    any_pattern(min_indent, false, arena, state)
}

/// Reads a pattern: a pattern in parentheses, an underscore, an
/// identifier or a tag with its arguments, a record destructure, a string
/// or a number.
pub fn loc_pattern<'a>(min_indent: u16, arena: &'a Arena, state: State<'a>) -> (r: ParseResult<
    'a,
    Located<Pattern<'a>>,
    EPattern<'a>,
>)
    requires
        state.wf(),
    ensures
        r == loc_pattern_at(min_indent, state),
        moves_on(r, state),
        r matches Ok((p, v, s)) ==> p is MadeProgress && loc_pattern_in(v, s.span_from(state))
            && v.region.start() == state.position(),
    decreases state.input@.len() - state.offset, 8nat,
{
    reveal_with_fuel(crate::pattern::loc_pattern_at, 1);
    reveal_with_fuel(crate::pattern::any_pattern_at, 1);
    any_pattern(min_indent, true, arena, state)
}

fn any_pattern<'a>(min_indent: u16, tags_have_arguments: bool, arena: &'a Arena, state: State<'a>) -> (r:
    ParseResult<'a, Located<Pattern<'a>>, EPattern<'a>>)
    requires
        state.wf(),
    ensures
        r == any_pattern_at(min_indent, tags_have_arguments, state),
        moves_on(r, state),
        r matches Ok((p, v, s)) ==> p is MadeProgress && loc_pattern_in(v, s.span_from(state))
            && v.region.start() == state.position(),
    decreases state.input@.len() - state.offset, 7nat,
{
    reveal_with_fuel(crate::pattern::any_pattern_at, 1);
    reveal_with_fuel(crate::pattern::loc_pattern_in_parens_at, 1);
    reveal_with_fuel(crate::pattern::loc_ident_pattern_at, 1);
    reveal_with_fuel(crate::pattern::record_destructure_at, 1);
    match loc_pattern_in_parens(min_indent, arena, state) {
        Err((Progress::NoProgress, _, _)) => {},
        Err(e) => {
            return Err(e);
        },
        Ok((p, v, s)) => {
            proof {
                lemma_pattern_widen(v.value, v.region, s.span_from(state));
            }
            return Ok((p, located(&state, &s, v.value), s));
        },
    }
    match underscore_pattern(state) {
        Some((v, s)) => {
            assert(pattern_in(v, s.span_from(state)));
            return Ok((Progress::MadeProgress, located(&state, &s, v), s));
        },
        None => {},
    }
    match loc_ident_pattern(min_indent, tags_have_arguments, arena, state) {
        Err((Progress::NoProgress, _, _)) => {},
        other => {
            return other;
        },
    }
    match record_destructure(min_indent, arena, state) {
        Err((Progress::NoProgress, _, _)) => {},
        Err(e) => {
            return Err(e);
        },
        Ok((p, v, s)) => {
            return Ok((p, located(&state, &s, v), s));
        },
    }
    match string_pattern(arena, state) {
        Err((Progress::NoProgress, _, _)) => {},
        Err(e) => {
            return Err(e);
        },
        Ok((p, v, s)) => {
            assert(pattern_in(v, s.span_from(state)));
            return Ok((p, located(&state, &s, v), s));
        },
    }
    match number_pattern(state) {
        Some((v, s)) => {
            assert(pattern_in(v, s.span_from(state)));
            Ok((Progress::MadeProgress, located(&state, &s, v), s))
        },
        None => Err((Progress::NoProgress, EPattern::Start(state.line, state.column), state)),
    }
}

/// Reads a parameter of a closure, or the pattern that a definition
/// binds: an identifier or a tag with its arguments, an underscore, a
/// record destructure, or any pattern at all in parentheses.
pub fn loc_closure_param<'a>(min_indent: u16, arena: &'a Arena, state: State<'a>) -> (r:
    ParseResult<'a, Located<Pattern<'a>>, EPattern<'a>>)
    requires
        state.wf(),
    ensures
        r == loc_closure_param_at(min_indent, state),
        moves_on(r, state),
        r matches Ok((p, v, s)) ==> p is MadeProgress && loc_pattern_in(v, s.span_from(state))
            && v.region.start() == state.position(),
        r matches Err((p, e, _)) ==> (p is NoProgress ==> e == EPattern::Start(
            state.line,
            state.column,
        )),
    decreases state.input@.len() - state.offset, 8nat,
{
    reveal_with_fuel(crate::pattern::loc_closure_param_at, 1);
    reveal_with_fuel(crate::pattern::loc_ident_pattern_at, 1);
    reveal_with_fuel(crate::pattern::record_destructure_at, 1);
    reveal_with_fuel(crate::pattern::loc_pattern_in_parens_at, 1);
    // An identifier is the most common parameter, as in \foo -> ...
    match loc_ident_pattern(min_indent, true, arena, state) {
        Err((Progress::NoProgress, _, _)) => {},
        other => {
            return other;
        },
    }
    // An underscore is also common, as in \_ -> ...
    match underscore_pattern(state) {
        Some((v, s)) => {
            assert(pattern_in(v, s.span_from(state)));
            return Ok((Progress::MadeProgress, located(&state, &s, v), s));
        },
        None => {},
    }
    // Records can be destructured in parameters, as in \{ x, y } -> ...
    match record_destructure(min_indent, arena, state) {
        Err((Progress::NoProgress, _, _)) => {},
        Err(e) => {
            return Err(e);
        },
        Ok((p, v, s)) => {
            return Ok((p, located(&state, &s, v), s));
        },
    }
    // In parentheses, any pattern at all can stand, as in
    // \(User.UserId userId) -> ...
    match loc_pattern_in_parens(min_indent, arena, state) {
        Err((Progress::NoProgress, _, _)) => Err(
            (Progress::NoProgress, EPattern::Start(state.line, state.column), state),
        ),
        Err(e) => Err(e),
        Ok((p, v, s)) => {
            proof {
                lemma_pattern_widen(v.value, v.region, s.span_from(state));
            }
            Ok((p, located(&state, &s, v.value), s))
        },
    }
}

} // verus!
