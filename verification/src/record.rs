//! The grammar of records: record literals, record updates, and the
//! definitions and annotations that begin with a record destructure.

use vstd::prelude::*;
use crate::arena::{alloc_in, Arena, List};
use crate::ast::{AssignedField, CommentOrNewline, Expr, Pattern};
use crate::blankspace::{space0, spaces_at};
use crate::bounds::{
    expr_field_in, expr_in, inside, label_in, lemma_loc_expr_fields_widen, loc_expr_field_in,
    loc_expr_fields_in, loc_expr_in, loc_patterns_in, pattern_in,
};
use crate::combinators::{expr_error, located, syntax_in_record};
use crate::def::{
    parse_def_expr_help, parse_def_expr_help_at, parse_def_signature_help,
    parse_def_signature_help_at,
};
use crate::errors::{moves_on, EExpr, ERecord, ParseResult, SyntaxError};
use crate::expr::{
    colon_with_indent_help, colon_with_indent_help_at, equals_with_indent_help,
    equals_with_indent_help_at, loc_expr, loc_expr_at, record_field_access_chain,
    record_field_access_chain_at, spaced_after, spaced_before, with_spaces_after,
    with_spaces_before, COLON, COMMA,
};
use crate::ident::{ident, ident_value, lowercase_at, lowercase_ident};
use crate::pattern::{pattern_spaced_after, pattern_with_spaces_after};
use crate::region::{Located, Region};
use crate::state::{Progress, State};
use crate::to_pattern::{
    fields_to_patterns, ident_to_expr, lemma_access_chain_in, lemma_patterns_of_fields_in,
    patterns_of_fields, wrap_accesses,
};
use crate::type_annotation::{next_byte, CLOSE_BRACE, OPEN_BRACE, QUESTION};

verus! {

pub const AMPERSAND: u8 = 38;

/// What reading a field of a record comes to.
#[verifier::opaque]
pub open spec fn record_field_help_at<'a>(min_indent: u16, state: State<'a>) -> ParseResult<
    'a,
    AssignedField<'a, Expr<'a>>,
    ERecord<'a>,
>
    decreases state.input@.len() - state.offset, 13nat,
{
    match lowercase_at(state) {
        None => Err((Progress::NoProgress, ERecord::Field(state.line, state.column), state)),
        Some((label, s1)) => {
            let loc_label = Located { region: s1.span_from(state), value: label };
            match spaces_at(false, min_indent, s1) {
                Err((_, problem, s)) => Err(
                    (
                        Progress::MadeProgress,
                        ERecord::space_of(problem, ERecord::IndentColon(s.line, s.column), s),
                        s,
                    ),
                ),
                Ok((_, spaces, s2)) => if next_byte(s2) == COLON || next_byte(s2) == QUESTION {
                    match spaces_at(false, min_indent, s2.after(1)) {
                        Err((_, problem, s)) => Err(
                            (
                                Progress::MadeProgress,
                                ERecord::space_of(problem, ERecord::IndentEnd(s.line, s.column), s),
                                s,
                            ),
                        ),
                        Ok((_, value_spaces, s4)) => if !state.leads_to(s4) {
                            arbitrary()
                        } else {
                            match crate::combinators::syntax_in_record_of(
                                loc_expr_at(min_indent, s4),
                            ) {
                                Err((_, e, s)) => Err((Progress::MadeProgress, e, s)),
                                Ok((_, value, end)) => Ok(
                                    (
                                        Progress::MadeProgress,
                                        if next_byte(s2) == COLON {
                                            AssignedField::RequiredValue(
                                                loc_label,
                                                spaces,
                                                &spaced_before(value_spaces, value),
                                            )
                                        } else {
                                            AssignedField::OptionalValue(
                                                loc_label,
                                                spaces,
                                                &spaced_before(value_spaces, value),
                                            )
                                        },
                                        end,
                                    ),
                                ),
                            }
                        },
                    }
                } else {
                    Ok(
                        (
                            Progress::MadeProgress,
                            if spaces@.len() == 0 {
                                AssignedField::LabelOnly(loc_label)
                            } else {
                                AssignedField::SpaceAfter(
                                    &AssignedField::LabelOnly(loc_label),
                                    spaces,
                                )
                            },
                            s2,
                        ),
                    )
                },
            }
        },
    }
}

/// What reading the expression of a record that is updated comes to.
pub open spec fn record_updateable_identifier_at<'a>(state: State<'a>) -> ParseResult<
    'a,
    Expr<'a>,
    ERecord<'a>,
> {
    match ident_value(state) {
        Some((id, s)) => Ok((Progress::MadeProgress, crate::to_pattern::expr_of_ident(id), s)),
        None => Err((Progress::NoProgress, ERecord::Updateable(state.line, state.column), state)),
    }
}

/// Reads a field of a record: a label, and then either `: value`,
/// `? value`, or nothing. Both `{ email }` and `{ email: blah }` are
/// records.
pub fn record_field_help<'a>(min_indent: u16, arena: &'a Arena, state: State<'a>) -> (r:
    ParseResult<'a, AssignedField<'a, Expr<'a>>, ERecord<'a>>)
    requires
        state.wf(),
    ensures
        r == record_field_help_at(min_indent, state),
        moves_on(r, state),
        (r matches Err((p, _, _)) && p is NoProgress) <==> !crate::ident::at_lowercase_ident(state),
        r matches Ok((p, f, s)) ==> p is MadeProgress && expr_field_in(f, s.span_from(state)),
    decreases state.input@.len() - state.offset, 13nat,
{
    reveal_with_fuel(crate::record::record_field_help_at, 1);
    reveal_with_fuel(crate::expr::loc_expr_at, 1);
    // A field has a name, as "email".
    let (label, s1) = match lowercase_ident(state) {
        Some(found) => found,
        None => {
            return Err((Progress::NoProgress, ERecord::Field(state.line, state.column), state));
        },
    };
    let loc_label = located(&state, &s1, label);
    let (_, spaces, s2) = match space0(min_indent, arena, s1) {
        Ok(ok) => ok,
        Err((_, problem, s)) => {
            return Err(
                (
                    Progress::MadeProgress,
                    ERecord::space(problem, ERecord::IndentColon(s.line, s.column), &s),
                    s,
                ),
            );
        },
    };
    let separator: u8 = match s2.peek() {
        Some(b) => b,
        None => 0,
    };
    if separator == COLON || separator == QUESTION {
        let s3 = s2.advance();
        let (_, value_spaces, s4) = match space0(min_indent, arena, s3) {
            Ok(ok) => ok,
            Err((_, problem, s)) => {
                return Err(
                    (
                        Progress::MadeProgress,
                        ERecord::space(problem, ERecord::IndentEnd(s.line, s.column), &s),
                        s,
                    ),
                );
            },
        };
        let (_, value, end) = match syntax_in_record(arena, loc_expr(min_indent, arena, s4)) {
            Ok(ok) => ok,
            Err((_, e, s)) => {
                return Err((Progress::MadeProgress, e, s));
            },
        };
        let value = with_spaces_before(arena, value_spaces, value);
        let field = if separator == COLON {
            AssignedField::RequiredValue(loc_label, spaces, alloc_in(arena, value))
        } else {
            AssignedField::OptionalValue(loc_label, spaces, alloc_in(arena, value))
        };
        assert(expr_field_in(field, end.span_from(state)));
        Ok((Progress::MadeProgress, field, end))
    } else {
        // Without a value, the field is its label.
        let alone = AssignedField::LabelOnly(loc_label);
        assert(expr_field_in(alone, s2.span_from(state)));
        let field = if spaces.len() == 0 {
            alone
        } else {
            AssignedField::SpaceAfter(alloc_in(arena, alone), spaces)
        };
        assert(expr_field_in(field, s2.span_from(state)));
        Ok((Progress::MadeProgress, field, s2))
    }
}

/// Reads the expression of a record that is updated, as `user` in
/// `{ user & name: "blah" }`.
pub fn record_updateable_identifier<'a>(arena: &'a Arena, state: State<'a>) -> (r: ParseResult<
    'a,
    Expr<'a>,
    ERecord<'a>,
>)
    requires
        state.wf(),
    ensures
        r == record_updateable_identifier_at(state),
        moves_on(r, state),
        r is Ok <==> crate::ident::at_ident(state),
        r matches Ok((p, e, s)) ==> p is MadeProgress && (forall|region: Region| expr_in(e, region)),
        r matches Err((p, e, _)) ==> p is NoProgress && e == ERecord::Updateable(
            state.line,
            state.column,
        ),
{
    match ident(arena, state) {
        Some((id, s)) => Ok((Progress::MadeProgress, ident_to_expr(arena, id), s)),
        None => Err((Progress::NoProgress, ERecord::Updateable(state.line, state.column), state)),
    }
}

/// What a record is read as: the record that is updated, if any, the
/// fields, and the comments after the last field.
pub struct RecordParts<'a> {
    pub update: Option<Located<Expr<'a>>>,
    pub fields: List<'a, Located<AssignedField<'a, Expr<'a>>>>,
    pub final_comments: &'a [CommentOrNewline<'a>],
}

pub type RecordFields<'a> = (
    List<'a, Located<AssignedField<'a, Expr<'a>>>>,
    &'a [CommentOrNewline<'a>],
);

/// The fields of a record and the closing brace, from the cursor after
/// the opening brace or after a comma.
#[verifier::opaque]
pub open spec fn record_fields_at<'a>(min_indent: u16, state: State<'a>) -> ParseResult<
    'a,
    RecordFields<'a>,
    ERecord<'a>,
>
    decreases state.input@.len() - state.offset, 14nat,
{
    match spaces_at(false, min_indent, state) {
        Err((_, problem, s)) => Err(
            (
                Progress::MadeProgress,
                ERecord::space_of(problem, ERecord::IndentEnd(s.line, s.column), s),
                s,
            ),
        ),
        Ok((_, spaces_before, s1)) => match s1.spec_word1(CLOSE_BRACE) {
            Some(end) => Ok((Progress::MadeProgress, (List::Nil, spaces_before), end)),
            None => if !state.reaches(s1) {
                arbitrary()
            } else {
                match record_field_help_at(min_indent, s1) {
                    Err((Progress::NoProgress, _, _)) => Err(
                        (Progress::MadeProgress, ERecord::End(s1.line, s1.column), s1),
                    ),
                    Err((Progress::MadeProgress, e, s)) => Err((Progress::MadeProgress, e, s)),
                    Ok((_, field, s2)) => {
                        let loc_field = Located {
                            region: s2.span_from(s1),
                            value: if spaces_before@.len() == 0 {
                                field
                            } else {
                                AssignedField::SpaceBefore(&field, spaces_before)
                            },
                        };
                        match spaces_at(false, min_indent, s2) {
                            Err((_, problem, s)) => Err(
                                (
                                    Progress::MadeProgress,
                                    ERecord::space_of(
                                        problem,
                                        ERecord::IndentEnd(s.line, s.column),
                                        s,
                                    ),
                                    s,
                                ),
                            ),
                            Ok((_, spaces_after, s3)) => match s3.spec_word1(COMMA) {
                                Some(s4) => if !state.leads_to(s4) {
                                    arbitrary()
                                } else {
                                    match record_fields_at(min_indent, s4) {
                                        Ok((_, v, end)) => Ok(
                                            (
                                                Progress::MadeProgress,
                                                (List::Cons(&loc_field, &v.0), v.1),
                                                end,
                                            ),
                                        ),
                                        Err((_, e, s)) => Err((Progress::MadeProgress, e, s)),
                                    }
                                },
                                None => match s3.spec_word1(CLOSE_BRACE) {
                                    Some(end) => Ok(
                                        (
                                            Progress::MadeProgress,
                                            (List::Cons(&loc_field, &List::Nil), spaces_after),
                                            end,
                                        ),
                                    ),
                                    None => Err(
                                        (
                                            Progress::MadeProgress,
                                            ERecord::End(s3.line, s3.column),
                                            s3,
                                        ),
                                    ),
                                },
                            },
                        }
                    },
                }
            },
        },
    }
}

/// The record that is updated and the `&` after it, at the cursor after
/// the opening brace of a record, with the cursor after them.
pub open spec fn record_update_at<'a>(min_indent: u16, state: State<'a>) -> Option<
    (Located<Expr<'a>>, State<'a>),
> {
    match spaces_at(false, min_indent, state) {
        Err(_) => None,
        Ok((_, spaces_before, s1)) => match record_updateable_identifier_at(s1) {
            Err(_) => None,
            Ok((_, e, s2)) => match spaces_at(false, min_indent, s2) {
                Err(_) => None,
                Ok((_, spaces_after, s3)) => match s3.spec_word1(AMPERSAND) {
                    Some(end) => Some(
                        (
                            spaced_after(
                                spaces_after,
                                spaced_before(
                                    spaces_before,
                                    Located { region: s2.span_from(s1), value: e },
                                ),
                            ),
                            end,
                        ),
                    ),
                    None => None,
                },
            },
        },
    }
}

/// What reading a record comes to.
#[verifier::opaque]
pub open spec fn record_help_at<'a>(min_indent: u16, state: State<'a>) -> ParseResult<
    'a,
    RecordParts<'a>,
    ERecord<'a>,
>
    decreases state.input@.len() - state.offset, 3nat,
{
    match state.spec_word1(OPEN_BRACE) {
        None => Err((Progress::NoProgress, ERecord::Open(state.line, state.column), state)),
        Some(s1) => {
            let update = match record_update_at(min_indent, s1) {
                Some((e, _)) => Some(e),
                None => None,
            };
            let s2 = match record_update_at(min_indent, s1) {
                Some((_, s)) => s,
                None => s1,
            };
            if !state.leads_to(s2) {
                arbitrary()
            } else {
                match record_fields_at(min_indent, s2) {
                    Ok((_, v, end)) => Ok(
                        (
                            Progress::MadeProgress,
                            RecordParts { update, fields: v.0, final_comments: v.1 },
                            end,
                        ),
                    ),
                    Err((_, e, s)) => Err((Progress::MadeProgress, e, s)),
                }
            }
        },
    }
}

/// The sign that may follow a pattern, after white space: `=` or `:`.
/// With the sign come the white space before it, whether it is `=`, the
/// indentation of its line, and the cursor after it.
pub type Sign<'a> = Option<(&'a [CommentOrNewline<'a>], bool, u16, State<'a>)>;

pub open spec fn sign_at<'a>(min_indent: u16, state: State<'a>) -> Sign<'a> {
    match spaces_at(false, min_indent, state) {
        Ok((_, spaces, s2)) => match equals_with_indent_help_at(s2) {
            Ok((_, indent, s3)) => Some((spaces, true, indent, s3)),
            Err(_) => match colon_with_indent_help_at(s2) {
                Ok((_, indent, s3)) => Some((spaces, false, indent, s3)),
                Err(_) => None,
            },
        },
        Err(_) => None,
    }
}

/// What reading a record with what may follow it comes to.
#[verifier::opaque]
pub open spec fn record_literal_help_at<'a>(min_indent: u16, state: State<'a>) -> ParseResult<
    'a,
    Expr<'a>,
    EExpr<'a>,
>
    decreases state.input@.len() - state.offset, 4nat,
{
    match record_help_at(min_indent, state) {
        Err((p, e, s)) => Err((p, EExpr::Record(e, state.line, state.column), s)),
        Ok((_, parts, s1)) => match sign_at(min_indent, s1) {
            None => {
                let value = Expr::Record {
                    update: match parts.update {
                        Some(u) => Some(&u),
                        None => None,
                    },
                    fields: parts.fields,
                    final_comments: parts.final_comments,
                };
                match record_field_access_chain_at(s1) {
                    Ok((_, accesses, end)) => Ok(
                        (
                            Progress::MadeProgress,
                            crate::to_pattern::access_chain(value, accesses),
                            end,
                        ),
                    ),
                    Err(_) => Ok((Progress::MadeProgress, value, s1)),
                }
            },
            Some((spaces_before_sign, is_equals, sign_indent, s3)) => if parts.update is Some
                || patterns_of_fields(parts.fields) is None {
                Err((Progress::MadeProgress, EExpr::MalformedPattern(s3.line, s3.column), s3))
            } else {
                let loc_pattern = pattern_spaced_after(
                    spaces_before_sign,
                    Located {
                        region: s1.span_from(state),
                        value: Pattern::RecordDestructure(patterns_of_fields(parts.fields)->0),
                    },
                );
                if is_equals {
                    match spaces_at(false, min_indent, s3) {
                        Err((_, problem, s)) => Err(
                            (
                                Progress::MadeProgress,
                                EExpr::space_of(problem, EExpr::IndentDefBody(s.line, s.column), s),
                                s,
                            ),
                        ),
                        Ok((_, spaces_after_equals, s4)) => if !state.leads_to(s4) {
                            arbitrary()
                        } else {
                            match parse_def_expr_help_at(
                                min_indent,
                                s1.span_from(state).start_col,
                                sign_indent,
                                s4,
                                loc_pattern,
                                spaces_after_equals,
                            ) {
                                Ok((_, e, end)) => Ok((Progress::MadeProgress, e, end)),
                                Err((_, e, s)) => Err((Progress::MadeProgress, e, s)),
                            }
                        },
                    }
                } else if !state.leads_to(s3) {
                    arbitrary()
                } else {
                    match parse_def_signature_help_at(min_indent, sign_indent, s3, loc_pattern) {
                        Ok((_, e, end)) => Ok((Progress::MadeProgress, e, end)),
                        Err((_, e, s)) => Err((Progress::MadeProgress, e, s)),
                    }
                }
            },
        },
    }
}

#[verifier::opaque]
pub open spec fn record_literal_at<'a>(min_indent: u16, state: State<'a>) -> ParseResult<
    'a,
    Expr<'a>,
    SyntaxError<'a>,
>
    decreases state.input@.len() - state.offset, 5nat,
{
    crate::combinators::expr_error_of(record_literal_help_at(min_indent, state))
}

/// Reads the fields of a record and the closing brace, from the cursor
/// after the opening brace or after a comma.
fn record_fields<'a>(min_indent: u16, arena: &'a Arena, state: State<'a>) -> (r: ParseResult<
    'a,
    (List<'a, Located<AssignedField<'a, Expr<'a>>>>, &'a [CommentOrNewline<'a>]),
    ERecord<'a>,
>)
    requires
        state.wf(),
    ensures
        r == record_fields_at(min_indent, state),
        moves_on(r, state),
        r matches Ok((p, v, s)) ==> p is MadeProgress && loc_expr_fields_in(v.0, s.span_from(state)),
    decreases state.input@.len() - state.offset, 14nat,
{
    reveal_with_fuel(crate::record::record_fields_at, 1);
    reveal_with_fuel(crate::record::record_field_help_at, 1);
    let (_, spaces_before, s1) = match space0(min_indent, arena, state) {
        Ok(ok) => ok,
        Err((_, problem, s)) => {
            return Err(
                (
                    Progress::MadeProgress,
                    ERecord::space(problem, ERecord::IndentEnd(s.line, s.column), &s),
                    s,
                ),
            );
        },
    };
    if let Some(end) = s1.word1(CLOSE_BRACE) {
        assert(loc_expr_fields_in(List::Nil, end.span_from(state)));
        return Ok((Progress::MadeProgress, (List::Nil, spaces_before), end));
    }
    let (_, field, s2) = match record_field_help(min_indent, arena, s1) {
        Ok(ok) => ok,
        Err((Progress::NoProgress, _, _)) => {
            return Err((Progress::MadeProgress, ERecord::End(s1.line, s1.column), s1));
        },
        Err((Progress::MadeProgress, e, s)) => {
            return Err((Progress::MadeProgress, e, s));
        },
    };
    let field = if spaces_before.len() == 0 {
        field
    } else {
        AssignedField::SpaceBefore(alloc_in(arena, field), spaces_before)
    };
    assert(expr_field_in(field, s2.span_from(s1)));
    let loc_field = located(&s1, &s2, field);
    let (_, spaces_after, s3) = match space0(min_indent, arena, s2) {
        Ok(ok) => ok,
        Err((_, problem, s)) => {
            return Err(
                (
                    Progress::MadeProgress,
                    ERecord::space(problem, ERecord::IndentEnd(s.line, s.column), &s),
                    s,
                ),
            );
        },
    };
    match s3.word1(COMMA) {
        Some(s4) => match record_fields(min_indent, arena, s4) {
            Ok((_, (rest, final_comments), end)) => {
                let fields = List::cons(arena, loc_field, rest);
                proof {
                    lemma_loc_expr_fields_widen(rest, end.span_from(s4), end.span_from(state));
                    assert(loc_expr_fields_in(fields, end.span_from(state)));
                }
                Ok((Progress::MadeProgress, (fields, final_comments), end))
            },
            Err((_, e, s)) => Err((Progress::MadeProgress, e, s)),
        },
        None => match s3.word1(CLOSE_BRACE) {
            Some(end) => {
                let fields = List::cons(arena, loc_field, List::Nil);
                proof {
                    assert(loc_expr_fields_in(List::Nil, end.span_from(state)));
                    assert(loc_expr_fields_in(fields, end.span_from(state)));
                }
                Ok((Progress::MadeProgress, (fields, spaces_after), end))
            },
            None => Err((Progress::MadeProgress, ERecord::End(s3.line, s3.column), s3)),
        },
    }
}

/// Reads, after the opening brace of a record, the record that is updated
/// and the `&` after it, as in `{ Foo.user & name: "blah" }`. Nothing is
/// final here: where no `&` follows an identifier, nothing is read.
fn record_update<'a>(min_indent: u16, arena: &'a Arena, state: State<'a>) -> (r: Option<
    (Located<Expr<'a>>, State<'a>),
>)
    requires
        state.wf(),
    ensures
        r == record_update_at(min_indent, state),
        r matches Some((e, s)) ==> s.extends(state) && s.offset > state.offset && loc_expr_in(
            e,
            s.span_from(state),
        ),
{
    let (spaces_before, s1) = match space0(min_indent, arena, state) {
        Ok((_, spaces, s)) => (spaces, s),
        Err(_) => {
            return None;
        },
    };
    let (e, s2) = match record_updateable_identifier(arena, s1) {
        Ok((_, e, s)) => (e, s),
        Err(_) => {
            return None;
        },
    };
    let (spaces_after, s3) = match space0(min_indent, arena, s2) {
        Ok((_, spaces, s)) => (spaces, s),
        Err(_) => {
            return None;
        },
    };
    match s3.word1(AMPERSAND) {
        Some(end) => {
            assert(expr_in(e, s2.span_from(s1)));
            let loc = with_spaces_after(
                arena,
                spaces_after,
                with_spaces_before(arena, spaces_before, located(&s1, &s2, e)),
            );
            Some((loc, end))
        },
        None => None,
    }
}

/// Reads a record: `{`, then if one likes the record that is updated and
/// `&`, then fields with commas between them and, if one likes, after the
/// last, and `}`.
pub fn record_help<'a>(min_indent: u16, arena: &'a Arena, state: State<'a>) -> (r: ParseResult<
    'a,
    RecordParts<'a>,
    ERecord<'a>,
>)
    requires
        state.wf(),
    ensures
        r == record_help_at(min_indent, state),
        moves_on(r, state),
        (r matches Err((p, _, _)) && p is NoProgress) <==> !state.at_byte(OPEN_BRACE),
        r matches Ok((p, v, s)) ==> p is MadeProgress && loc_expr_fields_in(
            v.fields,
            s.span_from(state),
        ) && (v.update matches Some(u) ==> loc_expr_in(u, s.span_from(state))),
        r matches Err((p, e, _)) ==> (p is NoProgress ==> e == ERecord::Open(
            state.line,
            state.column,
        )),
    decreases state.input@.len() - state.offset, 3nat,
{
    reveal_with_fuel(crate::record::record_help_at, 1);
    reveal_with_fuel(crate::record::record_fields_at, 1);
    let s1 = match state.word1(OPEN_BRACE) {
        Some(s) => s,
        None => {
            return Err((Progress::NoProgress, ERecord::Open(state.line, state.column), state));
        },
    };
    let (update, s2) = match record_update(min_indent, arena, s1) {
        Some((e, s)) => (Some(e), s),
        None => (None, s1),
    };
    match record_fields(min_indent, arena, s2) {
        Ok((_, (fields, final_comments), end)) => {
            proof {
                lemma_loc_expr_fields_widen(fields, end.span_from(s2), end.span_from(state));
            }
            Ok((Progress::MadeProgress, RecordParts { update, fields, final_comments }, end))
        },
        Err((_, e, s)) => Err((Progress::MadeProgress, e, s)),
    }
}

/// Reads a record literal with what may follow it, with the error of a
/// whole parse.
pub fn record_literal<'a>(min_indent: u16, arena: &'a Arena, state: State<'a>) -> (r: ParseResult<
    'a,
    Expr<'a>,
    SyntaxError<'a>,
>)
    requires
        state.wf(),
    ensures
        r == record_literal_at(min_indent, state),
        moves_on(r, state),
        (r matches Err((p, _, _)) && p is NoProgress) <==> !state.at_byte(OPEN_BRACE),
        r matches Ok((p, e, s)) ==> p is MadeProgress && expr_in(e, s.span_from(state)),
    decreases state.input@.len() - state.offset, 5nat,
{
    reveal_with_fuel(crate::record::record_literal_at, 1);
    reveal_with_fuel(crate::record::record_literal_help_at, 1);
    expr_error(record_literal_help(min_indent, arena, state))
}

/// Reads a record with what may follow it:
///
/// * `=`, which makes the record a destructure that begins a block of
///   definitions;
/// * `:`, which makes it a destructure that is annotated with a type;
/// * or else fields that are read from the record, as in `{ x: 4 }.x`.
///
/// Without any of them, the record stands alone.
pub fn record_literal_help<'a>(min_indent: u16, arena: &'a Arena, state: State<'a>) -> (r:
    ParseResult<'a, Expr<'a>, EExpr<'a>>)
    requires
        state.wf(),
    ensures
        r == record_literal_help_at(min_indent, state),
        moves_on(r, state),
        (r matches Err((p, _, _)) && p is NoProgress) <==> !state.at_byte(OPEN_BRACE),
        r matches Ok((p, e, s)) ==> p is MadeProgress && expr_in(e, s.span_from(state)),
    decreases state.input@.len() - state.offset, 4nat,
{
    reveal_with_fuel(crate::record::record_literal_help_at, 1);
    reveal_with_fuel(crate::record::record_help_at, 1);
    reveal_with_fuel(crate::def::parse_def_expr_help_at, 1);
    reveal_with_fuel(crate::def::parse_def_signature_help_at, 1);
    let (_, parts, s1) = match record_help(min_indent, arena, state) {
        Ok(ok) => ok,
        Err((p, e, s)) => {
            return Err((p, EExpr::Record(e, state.line, state.column), s));
        },
    };
    // An '=' or a ':' may follow, after white space.
    let sign = match space0(min_indent, arena, s1) {
        Ok((_, spaces, s2)) => match equals_with_indent_help(s2) {
            Ok((_, indent, s3)) => Some((spaces, true, indent, s3)),
            Err(_) => match colon_with_indent_help(s2) {
                Ok((_, indent, s3)) => Some((spaces, false, indent, s3)),
                Err(_) => None,
            },
        },
        Err(_) => None,
    };
    match sign {
        None => {
            // This is a record literal, not a destructure.
            let value = Expr::Record {
                update: match parts.update {
                    Some(u) => Some(alloc_in(arena, u)),
                    None => None,
                },
                fields: parts.fields,
                final_comments: parts.final_comments,
            };
            assert(expr_in(value, s1.span_from(state)));
            // There can be field access, as in `{ x : 4 }.x`.
            match record_field_access_chain(arena, s1) {
                Ok((_, accesses, end)) => {
                    proof {
                        crate::bounds::lemma_expr_widen(
                            value,
                            s1.span_from(state),
                            end.span_from(state),
                        );
                        lemma_access_chain_in(value, accesses, end.span_from(state));
                    }
                    Ok((Progress::MadeProgress, wrap_accesses(arena, value, accesses), end))
                },
                Err(_) => Ok((Progress::MadeProgress, value, s1)),
            }
        },
        Some((spaces_before_sign, is_equals, sign_indent, s3)) => {
            // This is a record destructure. A record that updates
            // another is no pattern.
            let patterns = match (parts.update, fields_to_patterns(arena, parts.fields)) {
                (None, Ok(patterns)) => patterns,
                _ => {
                    return Err(
                        (
                            Progress::MadeProgress,
                            EExpr::MalformedPattern(s3.line, s3.column),
                            s3,
                        ),
                    );
                },
            };
            let region = s1.region_since(&state);
            proof {
                lemma_patterns_of_fields_in(parts.fields, region);
            }
            let destructure = Pattern::RecordDestructure(patterns);
            assert(pattern_in(destructure, region));
            let loc_pattern = pattern_with_spaces_after(
                arena,
                spaces_before_sign,
                Located { region, value: destructure },
            );
            if is_equals {
                let (_, spaces_after_equals, s4) = match space0(min_indent, arena, s3) {
                    Ok(ok) => ok,
                    Err((_, problem, s)) => {
                        return Err(
                            (
                                Progress::MadeProgress,
                                EExpr::space(
                                    problem,
                                    EExpr::IndentDefBody(s.line, s.column),
                                    &s,
                                ),
                                s,
                            ),
                        );
                    },
                };
                // The block starts in the column of the '{'.
                let def_start_col: u16 = region.start_col;
                match parse_def_expr_help(
                    min_indent,
                    def_start_col,
                    sign_indent,
                    arena,
                    s4,
                    loc_pattern,
                    spaces_after_equals,
                ) {
                    Ok((_, e, end)) => Ok((Progress::MadeProgress, e, end)),
                    Err((_, e, s)) => Err((Progress::MadeProgress, e, s)),
                }
            } else {
                // This is the annotation of a record destructure.
                match parse_def_signature_help(min_indent, sign_indent, arena, s3, loc_pattern) {
                    Ok((_, e, end)) => Ok((Progress::MadeProgress, e, end)),
                    Err((_, e, s)) => Err((Progress::MadeProgress, e, s)),
                }
            }
        },
    }
}

} // verus!
