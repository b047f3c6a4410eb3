//! The grammar of type annotations: type variables, named types with
//! arguments, function types, record types and the wildcard.

use vstd::prelude::*;
use crate::arena::{alloc_in, Arena, List};
use crate::ast::{AssignedField, CommentOrNewline, TypeAnnotation};
use crate::blankspace::{slice_of, space0, space1, spaces_at};
use crate::bounds::{
    inside, label_in, lemma_loc_type_fields_widen, lemma_loc_types_widen, lemma_type_widen,
    loc_type_field_in, loc_type_fields_in, loc_type_in, loc_types_in, type_field_in, type_in,
};
use crate::combinators::located;
use crate::errors::{moves_on, EType, ParseResult};
use crate::expr::{CLOSE_PAREN, COLON, COMMA, GREATER, OPEN_PAREN};
use crate::ident::{lowercase_at, lowercase_ident, uppercase_ident, DOT};
use crate::literal::MINUS;
use crate::region::Located;
use crate::state::{lemma_same_line, Progress, State};

verus! {

pub const OPEN_BRACE: u8 = 123;

pub const CLOSE_BRACE: u8 = 125;

pub const STAR: u8 = 42;

pub const QUESTION: u8 = 63;

/// A type with the white space that was read before it, if any.
pub open spec fn spaced_type<'a>(
    spaces: &'a [CommentOrNewline<'a>],
    ann: Located<TypeAnnotation<'a>>,
) -> Located<TypeAnnotation<'a>> {
    if spaces@.len() == 0 {
        ann
    } else {
        Located { region: ann.region, value: TypeAnnotation::SpaceBefore(&ann.value, spaces) }
    }
}

/// Wraps a type in the white space that was read before it, if any.
pub fn type_with_spaces_before<'a>(
    arena: &'a Arena,
    spaces: &'a [CommentOrNewline<'a>],
    ann: Located<TypeAnnotation<'a>>,
) -> (r: Located<TypeAnnotation<'a>>)
    ensures
        r == spaced_type(spaces, ann),
        r.region == ann.region,
        type_in(ann.value, ann.region) ==> type_in(r.value, r.region),
{
    if spaces.len() == 0 {
        ann
    } else {
        Located {
            region: ann.region,
            value: TypeAnnotation::SpaceBefore(alloc_in(arena, ann.value), spaces),
        }
    }
}

/// Where the last part of a qualified name starts and where the name
/// ends, `name_start` being where the part that ends at `part_end`
/// starts: further parts follow as long as a dot with an upper-case
/// letter right after it does.
pub open spec fn name_bounds(input: Seq<u8>, part_end: int, name_start: int) -> (int, int)
    decreases input.len() - part_end,
{
    if crate::ident::module_part_at(input, part_end) && part_end < crate::ident::word_end(
        input,
        part_end + 2,
    ) <= input.len() {
        name_bounds(input, crate::ident::word_end(input, part_end + 2), part_end + 1)
    } else {
        (name_start, part_end)
    }
}

/// Reads the rest of the name of a type that is qualified by the names of
/// modules, as `Mod.Ule.Name`. Hands back the cursor where the last part
/// starts and the cursor after the name.
fn qualified_name<'a>(part_end: State<'a>, name_start: State<'a>, state: State<'a>) -> (r: (
    State<'a>,
    State<'a>,
))
    requires
        state.wf(),
        part_end.extends(state),
        name_start.extends(state),
        part_end.extends(name_start),
        part_end.line == state.line,
        name_start.offset < part_end.offset,
        name_start.offset == state.offset || name_start.offset > state.offset + 1,
    ensures
        r.0.extends(state),
        r.1.extends(r.0),
        r.1.line == state.line,
        r.0.offset < r.1.offset,
        (r.0.offset as int, r.1.offset as int) == name_bounds(
            state.input@,
            part_end.offset as int,
            name_start.offset as int,
        ),
        r.0.offset == state.offset || r.0.offset > state.offset + 1,
    decreases state.input@.len() - part_end.offset,
{
    match part_end.word1(DOT) {
        Some(after_dot) => match uppercase_ident(after_dot) {
            Some((_, s)) => {
                proof {
                    lemma_same_line(state.input@, part_end.offset as int, after_dot.offset as int);
                    crate::ident::lemma_word_end_bounds(state.input@, part_end.offset + 2);
                }
                qualified_name(s, after_dot, state)
            },
            None => (name_start, part_end),
        },
        None => (name_start, part_end),
    }
}

/// The named type without arguments that starts at the cursor, which
/// stands at an upper-case letter: the module's name runs up to the last
/// dot, and the type's name from there.
pub open spec fn named_type_at<'a>(state: State<'a>) -> (Located<TypeAnnotation<'a>>, State<'a>) {
    let first_end = crate::ident::word_end(state.input@, state.offset + 1);
    let bounds = name_bounds(state.input@, first_end, state.offset as int);
    let module_end = if bounds.0 == state.offset {
        state.offset as int
    } else {
        bounds.0 - 1
    };
    let end = state.at(bounds.1);
    (
        Located {
            region: end.span_from(state),
            value: TypeAnnotation::Apply(
                state.text(state.offset as int, module_end),
                state.text(bounds.0, bounds.1),
                List::Nil,
            ),
        },
        end,
    )
}

/// The type that stands alone at the cursor: a type in parentheses, a
/// record type, the wildcard `*`, a type variable, or a named type without
/// arguments.
#[verifier::opaque]
pub open spec fn term_at<'a>(min_indent: u16, state: State<'a>) -> ParseResult<
    'a,
    Located<TypeAnnotation<'a>>,
    EType,
>
    decreases state.input@.len() - state.offset, 1nat,
{
    if state.offset >= state.input@.len() {
        Err((Progress::NoProgress, EType::Start(state.line, state.column), state))
    } else if state.at_byte(OPEN_PAREN) {
        if !state.leads_to(state.after(1)) {
            arbitrary()
        } else {
            match spaces_at(false, min_indent, state.after(1)) {
                Err((_, problem, s)) => Err(
                    (
                        Progress::MadeProgress,
                        EType::space_of(problem, EType::IndentStart(s.line, s.column), s),
                        s,
                    ),
                ),
                Ok((_, spaces, s1)) => if !state.leads_to(s1) {
                    arbitrary()
                } else {
                    match located_type_at(min_indent, s1) {
                        Err((_, e, s)) => Err((Progress::MadeProgress, e, s)),
                        Ok((_, inner, s2)) => match spaces_at(false, min_indent, s2) {
                            Err((_, problem, s)) => Err(
                                (
                                    Progress::MadeProgress,
                                    EType::space_of(
                                        problem,
                                        EType::IndentEnd(s.line, s.column),
                                        s,
                                    ),
                                    s,
                                ),
                            ),
                            Ok((_, _, s3)) => match s3.spec_word1(CLOSE_PAREN) {
                                Some(end) => Ok(
                                    (Progress::MadeProgress, spaced_type(spaces, inner), end),
                                ),
                                None => Err(
                                    (
                                        Progress::MadeProgress,
                                        EType::InParensEnd(s3.line, s3.column),
                                        s3,
                                    ),
                                ),
                            },
                        },
                    }
                },
            }
        }
    } else if state.at_byte(OPEN_BRACE) {
        if !state.leads_to(state.after(1)) {
            arbitrary()
        } else {
            match record_fields_at(min_indent, state.after(1)) {
                Ok((_, v, end)) => Ok(
                    (
                        Progress::MadeProgress,
                        Located {
                            region: end.span_from(state),
                            value: TypeAnnotation::Record { fields: v.0, final_comments: v.1 },
                        },
                        end,
                    ),
                ),
                Err((_, e, s)) => Err((Progress::MadeProgress, e, s)),
            }
        }
    } else if state.at_byte(STAR) {
        Ok(
            (
                Progress::MadeProgress,
                Located {
                    region: state.after(1).span_from(state),
                    value: TypeAnnotation::Wildcard,
                },
                state.after(1),
            ),
        )
    } else {
        match lowercase_at(state) {
            Some((name, end)) => Ok(
                (
                    Progress::MadeProgress,
                    Located {
                        region: end.span_from(state),
                        value: TypeAnnotation::BoundVariable(name),
                    },
                    end,
                ),
            ),
            None => if crate::ident::at_uppercase_ident(state) {
                Ok((Progress::MadeProgress, named_type_at(state).0, named_type_at(state).1))
            } else {
                Err((Progress::NoProgress, EType::Start(state.line, state.column), state))
            },
        }
    }
}

/// Reads a type that stands alone: a type in parentheses, a record type,
/// the wildcard `*`, a type variable, or a named type without arguments.
pub fn term<'a>(min_indent: u16, arena: &'a Arena, state: State<'a>) -> (r: ParseResult<
    'a,
    Located<TypeAnnotation<'a>>,
    EType,
>)
    requires
        state.wf(),
    ensures
        moves_on(r, state),
        r == term_at(min_indent, state),
        r matches Ok((p, ann, s)) ==> p is MadeProgress && loc_type_in(ann, s.span_from(state)),
        r matches Err((p, e, s)) ==> (p is NoProgress ==> e == EType::Start(
            state.line,
            state.column,
        )),
    decreases state.input@.len() - state.offset, 1nat,
{
    reveal_with_fuel(crate::type_annotation::term_at, 1);
    reveal_with_fuel(crate::type_annotation::located_type_at, 1);
    reveal_with_fuel(crate::type_annotation::record_fields_at, 1);
    match state.peek() {
        None => Err((Progress::NoProgress, EType::Start(state.line, state.column), state)),
        Some(b) => {
            if b == OPEN_PAREN {
                let inside_parens = state.advance();
                let (_, spaces, s1) = match space0(min_indent, arena, inside_parens) {
                    Ok(ok) => ok,
                    Err((_, problem, s)) => {
                        return Err(
                            (
                                Progress::MadeProgress,
                                EType::space(problem, EType::IndentStart(s.line, s.column), &s),
                                s,
                            ),
                        );
                    },
                };
                let (_, inner, s2) = match located_type(min_indent, arena, s1) {
                    Ok(ok) => ok,
                    Err((_, e, s)) => {
                        return Err((Progress::MadeProgress, e, s));
                    },
                };
                let (_, _, s3) = match space0(min_indent, arena, s2) {
                    Ok(ok) => ok,
                    Err((_, problem, s)) => {
                        return Err(
                            (
                                Progress::MadeProgress,
                                EType::space(problem, EType::IndentEnd(s.line, s.column), &s),
                                s,
                            ),
                        );
                    },
                };
                match s3.word1(CLOSE_PAREN) {
                    Some(end) => {
                        let ann = type_with_spaces_before(arena, spaces, inner);
                        Ok((Progress::MadeProgress, ann, end))
                    },
                    None => Err(
                        (Progress::MadeProgress, EType::InParensEnd(s3.line, s3.column), s3),
                    ),
                }
            } else if b == OPEN_BRACE {
                let inside_braces = state.advance();
                match record_fields(min_indent, arena, inside_braces) {
                    Ok((_, (fields, final_comments), end)) => {
                        proof {
                            lemma_loc_type_fields_widen(
                                fields,
                                end.span_from(inside_braces),
                                end.span_from(state),
                            );
                        }
                        Ok(
                            (
                                Progress::MadeProgress,
                                located(
                                    &state,
                                    &end,
                                    TypeAnnotation::Record { fields, final_comments },
                                ),
                                end,
                            ),
                        )
                    },
                    Err((_, e, s)) => Err((Progress::MadeProgress, e, s)),
                }
            } else if b == STAR {
                let end = state.advance();
                Ok((Progress::MadeProgress, located(&state, &end, TypeAnnotation::Wildcard), end))
            } else {
                match lowercase_ident(state) {
                    Some((name, end)) => Ok(
                        (
                            Progress::MadeProgress,
                            located(&state, &end, TypeAnnotation::BoundVariable(name)),
                            end,
                        ),
                    ),
                    None => match uppercase_ident(state) {
                        Some((_, first_end)) => {
                            let (name_start, end) = qualified_name(first_end, state, state);
                            let module_end: usize = if name_start.offset == state.offset {
                                state.offset
                            } else {
                                name_start.offset - 1
                            };
                            let module_name: &'a [u8] = slice_of(
                                state.input,
                                state.offset,
                                module_end,
                            );
                            let name: &'a [u8] = slice_of(
                                state.input,
                                name_start.offset,
                                end.offset,
                            );
                            proof {
                                assert(loc_types_in(List::Nil, end.span_from(state)));
                                crate::state::lemma_state_at(state, end);
                            }
                            Ok(
                                (
                                    Progress::MadeProgress,
                                    located(
                                        &state,
                                        &end,
                                        TypeAnnotation::Apply(module_name, name, List::Nil),
                                    ),
                                    end,
                                ),
                            )
                        },
                        None => Err(
                            (Progress::NoProgress, EType::Start(state.line, state.column), state),
                        ),
                    },
                }
            }
        },
    }
}

/// The byte at the cursor, or 0 at the end of the input.
pub open spec fn next_byte(state: State) -> u8 {
    if state.offset < state.input@.len() {
        state.input@[state.offset as int]
    } else {
        0
    }
}

pub type TypeFields<'a> = (
    List<'a, Located<AssignedField<'a, TypeAnnotation<'a>>>>,
    &'a [CommentOrNewline<'a>],
);

/// The fields of a record type and the closing brace, from the cursor
/// after the opening brace or after a comma.
#[verifier::opaque]
pub open spec fn record_fields_at<'a>(min_indent: u16, state: State<'a>) -> ParseResult<
    'a,
    TypeFields<'a>,
    EType,
>
    decreases state.input@.len() - state.offset, 0nat,
{
    match spaces_at(false, min_indent, state) {
        Err((_, problem, s)) => Err(
            (
                Progress::MadeProgress,
                EType::space_of(problem, EType::IndentEnd(s.line, s.column), s),
                s,
            ),
        ),
        Ok((_, spaces, s1)) => match s1.spec_word1(CLOSE_BRACE) {
            Some(end) => Ok((Progress::MadeProgress, (List::Nil, spaces), end)),
            None => match lowercase_at(s1) {
                None => Err((Progress::MadeProgress, EType::RecordField(s1.line, s1.column), s1)),
                Some((label, s2)) => {
                    let loc_label = Located { region: s2.span_from(s1), value: label };
                    match spaces_at(false, min_indent, s2) {
                        Err((_, problem, s)) => Err(
                            (
                                Progress::MadeProgress,
                                EType::space_of(problem, EType::IndentEnd(s.line, s.column), s),
                                s,
                            ),
                        ),
                        Ok((_, label_spaces, s3)) => if next_byte(s3) == COLON || next_byte(s3)
                            == QUESTION {
                            match spaces_at(false, min_indent, s3.after(1)) {
                                Err((_, problem, s)) => Err(
                                    (
                                        Progress::MadeProgress,
                                        EType::space_of(
                                            problem,
                                            EType::IndentEnd(s.line, s.column),
                                            s,
                                        ),
                                        s,
                                    ),
                                ),
                                Ok((_, value_spaces, s5)) => if !state.leads_to(s5) {
                                    arbitrary()
                                } else {
                                    match located_type_at(min_indent, s5) {
                                        Err((_, e, s)) => Err((Progress::MadeProgress, e, s)),
                                        Ok((_, value, s6)) => {
                                            let value = spaced_type(value_spaces, value);
                                            let field = if next_byte(s3) == COLON {
                                                AssignedField::RequiredValue(
                                                    loc_label,
                                                    label_spaces,
                                                    &value,
                                                )
                                            } else {
                                                AssignedField::OptionalValue(
                                                    loc_label,
                                                    label_spaces,
                                                    &value,
                                                )
                                            };
                                            if !state.leads_to(s6) {
                                                arbitrary()
                                            } else {
                                                more_fields_at(
                                                    min_indent,
                                                    Located {
                                                        region: s6.span_from(s1),
                                                        value: field,
                                                    },
                                                    s6,
                                                )
                                            }
                                        },
                                    }
                                },
                            }
                        } else {
                            let alone = AssignedField::LabelOnly(loc_label);
                            let field = if label_spaces@.len() == 0 {
                                alone
                            } else {
                                AssignedField::SpaceAfter(&alone, label_spaces)
                            };
                            if !state.leads_to(s3) {
                                arbitrary()
                            } else {
                                more_fields_at(
                                    min_indent,
                                    Located { region: s3.span_from(s1), value: field },
                                    s3,
                                )
                            }
                        },
                    }
                },
            },
        },
    }
}

/// The fields of a record type of which `field` is the first, from the
/// cursor after that field: a comma and further fields, or the closing
/// brace.
#[verifier::opaque]
pub open spec fn more_fields_at<'a>(
    min_indent: u16,
    field: Located<AssignedField<'a, TypeAnnotation<'a>>>,
    state: State<'a>,
) -> ParseResult<'a, TypeFields<'a>, EType>
    decreases state.input@.len() - state.offset, 1nat,
{
    match spaces_at(false, min_indent, state) {
        Err((_, problem, s)) => Err(
            (
                Progress::MadeProgress,
                EType::space_of(problem, EType::IndentEnd(s.line, s.column), s),
                s,
            ),
        ),
        Ok((_, after_spaces, s7)) => match s7.spec_word1(COMMA) {
            Some(s8) => if !state.leads_to(s8) {
                arbitrary()
            } else {
                match record_fields_at(min_indent, s8) {
                    Ok((_, v, end)) => Ok(
                        (Progress::MadeProgress, (List::Cons(&field, &v.0), v.1), end),
                    ),
                    Err((_, e, s)) => Err((Progress::MadeProgress, e, s)),
                }
            },
            None => match s7.spec_word1(CLOSE_BRACE) {
                Some(end) => Ok(
                    (
                        Progress::MadeProgress,
                        (List::Cons(&field, &List::Nil), after_spaces),
                        end,
                    ),
                ),
                None => Err((Progress::MadeProgress, EType::RecordEnd(s7.line, s7.column), s7)),
            },
        },
    }
}

/// Reads the fields of a record type and the closing brace, from the
/// cursor after the opening brace: fields `label : Type` or
/// `label ? Type`, or a label alone, with commas between them and, if one
/// likes, after the last.
fn record_fields<'a>(min_indent: u16, arena: &'a Arena, state: State<'a>) -> (r: ParseResult<
    'a,
    (List<'a, Located<AssignedField<'a, TypeAnnotation<'a>>>>, &'a [CommentOrNewline<'a>]),
    EType,
>)
    requires
        state.wf(),
    ensures
        moves_on(r, state),
        r == record_fields_at(min_indent, state),
        r matches Ok((p, v, s)) ==> p is MadeProgress && loc_type_fields_in(v.0, s.span_from(state)),
    decreases state.input@.len() - state.offset, 0nat,
{
    reveal_with_fuel(crate::type_annotation::record_fields_at, 1);
    reveal_with_fuel(crate::type_annotation::located_type_at, 1);
    reveal_with_fuel(crate::type_annotation::more_fields_at, 1);
    let (_, spaces, s1) = match space0(min_indent, arena, state) {
        Ok(ok) => ok,
        Err((_, problem, s)) => {
            return Err(
                (
                    Progress::MadeProgress,
                    EType::space(problem, EType::IndentEnd(s.line, s.column), &s),
                    s,
                ),
            );
        },
    };
    if let Some(end) = s1.word1(CLOSE_BRACE) {
        assert(loc_type_fields_in(List::Nil, end.span_from(state)));
        return Ok((Progress::MadeProgress, (List::Nil, spaces), end));
    }
    let (label, s2) = match lowercase_ident(s1) {
        Some(found) => found,
        None => {
            return Err((Progress::MadeProgress, EType::RecordField(s1.line, s1.column), s1));
        },
    };
    let loc_label = located(&s1, &s2, label);
    let (_, label_spaces, s3) = match space0(min_indent, arena, s2) {
        Ok(ok) => ok,
        Err((_, problem, s)) => {
            return Err(
                (
                    Progress::MadeProgress,
                    EType::space(problem, EType::IndentEnd(s.line, s.column), &s),
                    s,
                ),
            );
        },
    };
    let separator: u8 = match s3.peek() {
        Some(b) => b,
        None => 0,
    };
    let (field, s6) = if separator == COLON || separator == QUESTION {
        let s4 = s3.advance();
        let (_, value_spaces, s5) = match space0(min_indent, arena, s4) {
            Ok(ok) => ok,
            Err((_, problem, s)) => {
                return Err(
                    (
                        Progress::MadeProgress,
                        EType::space(problem, EType::IndentEnd(s.line, s.column), &s),
                        s,
                    ),
                );
            },
        };
        let (_, value, s6) = match located_type(min_indent, arena, s5) {
            Ok(ok) => ok,
            Err((_, e, s)) => {
                return Err((Progress::MadeProgress, e, s));
            },
        };
        let value = type_with_spaces_before(arena, value_spaces, value);
        let value_ref = alloc_in(arena, value);
        let field = if separator == COLON {
            AssignedField::RequiredValue(loc_label, label_spaces, value_ref)
        } else {
            AssignedField::OptionalValue(loc_label, label_spaces, value_ref)
        };
        assert(type_field_in(field, s6.span_from(s1)));
        (located(&s1, &s6, field), s6)
    } else {
        let alone = AssignedField::LabelOnly(loc_label);
        assert(type_field_in(alone, s3.span_from(s1)));
        let field = if label_spaces.len() == 0 {
            alone
        } else {
            AssignedField::SpaceAfter(alloc_in(arena, alone), label_spaces)
        };
        assert(type_field_in(field, s3.span_from(s1)));
        (located(&s1, &s3, field), s3)
    };
    let r = more_fields(min_indent, arena, field, Ghost(s1), s6);
    proof {
        if let Ok((_, v, end)) = r {
            lemma_loc_type_fields_widen(v.0, end.span_from(s1), end.span_from(state));
        }
    }
    r
}

/// Reads the fields of a record type of which `field` is the first, from
/// the cursor after that field: a comma and further fields, or the closing
/// brace. `field_start` is where `field` starts.
fn more_fields<'a>(
    min_indent: u16,
    arena: &'a Arena,
    field: Located<AssignedField<'a, TypeAnnotation<'a>>>,
    Ghost(field_start): Ghost<State<'a>>,
    state: State<'a>,
) -> (r: ParseResult<
    'a,
    (List<'a, Located<AssignedField<'a, TypeAnnotation<'a>>>>, &'a [CommentOrNewline<'a>]),
    EType,
>)
    requires
        state.wf(),
        state.extends(field_start),
        loc_type_field_in(field, state.span_from(field_start)),
    ensures
        moves_on(r, state),
        r == more_fields_at(min_indent, field, state),
        r matches Ok((p, v, s)) ==> p is MadeProgress && loc_type_fields_in(
            v.0,
            s.span_from(field_start),
        ),
        r matches Err((p, _, _)) ==> p is MadeProgress,
    decreases state.input@.len() - state.offset, 1nat,
{
    reveal_with_fuel(crate::type_annotation::more_fields_at, 1);
    reveal_with_fuel(crate::type_annotation::record_fields_at, 1);
    let (_, after_spaces, s7) = match space0(min_indent, arena, state) {
        Ok(ok) => ok,
        Err((_, problem, s)) => {
            return Err(
                (
                    Progress::MadeProgress,
                    EType::space(problem, EType::IndentEnd(s.line, s.column), &s),
                    s,
                ),
            );
        },
    };
    match s7.word1(COMMA) {
        Some(s8) => match record_fields(min_indent, arena, s8) {
            Ok((_, (rest, final_comments), end)) => {
                let fields = List::cons(arena, field, rest);
                proof {
                    lemma_loc_type_fields_widen(
                        rest,
                        end.span_from(s8),
                        end.span_from(field_start),
                    );
                    assert(loc_type_fields_in(fields, end.span_from(field_start)));
                }
                Ok((Progress::MadeProgress, (fields, final_comments), end))
            },
            Err((_, e, s)) => Err((Progress::MadeProgress, e, s)),
        },
        None => match s7.word1(CLOSE_BRACE) {
            Some(end) => {
                let fields = List::cons(arena, field, List::Nil);
                proof {
                    assert(loc_type_fields_in(List::Nil, end.span_from(field_start)));
                    assert(loc_type_fields_in(fields, end.span_from(field_start)));
                }
                Ok((Progress::MadeProgress, (fields, after_spaces), end))
            },
            None => Err((Progress::MadeProgress, EType::RecordEnd(s7.line, s7.column), s7)),
        },
    }
}

/// The arguments of a named type: types that stand alone, each after
/// white space, as far as they go.
#[verifier::opaque]
pub open spec fn apply_args_at<'a>(min_indent: u16, state: State<'a>) -> ParseResult<
    'a,
    List<'a, Located<TypeAnnotation<'a>>>,
    EType,
>
    decreases state.input@.len() - state.offset, 0nat,
{
    match spaces_at(true, min_indent, state) {
        Err(_) => Ok((Progress::NoProgress, List::Nil, state)),
        Ok((_, spaces, s1)) => if !state.leads_to(s1) {
            arbitrary()
        } else {
            match term_at(min_indent, s1) {
                Err((Progress::NoProgress, _, _)) => Ok((Progress::NoProgress, List::Nil, state)),
                Err((Progress::MadeProgress, e, s)) => Err((Progress::MadeProgress, e, s)),
                Ok((_, arg, s2)) => if !state.leads_to(s2) {
                    arbitrary()
                } else {
                    match apply_args_at(min_indent, s2) {
                        Ok((_, rest, end)) => Ok(
                            (
                                Progress::MadeProgress,
                                List::Cons(&spaced_type(spaces, arg), &rest),
                                end,
                            ),
                        ),
                        Err((_, e, s)) => Err((Progress::MadeProgress, e, s)),
                    }
                },
            }
        },
    }
}

/// Reads the arguments of a named type: types that stand alone, each
/// after white space. Stops, without consuming the white space, where no
/// further argument begins.
fn apply_args<'a>(min_indent: u16, arena: &'a Arena, state: State<'a>) -> (r: ParseResult<
    'a,
    List<'a, Located<TypeAnnotation<'a>>>,
    EType,
>)
    requires
        state.wf(),
    ensures
        moves_on(r, state),
        r == apply_args_at(min_indent, state),
        r matches Ok((p, args, s)) ==> loc_types_in(args, s.span_from(state)) && (args is Nil
            <==> s.offset == state.offset),
    decreases state.input@.len() - state.offset, 0nat,
{
    reveal_with_fuel(crate::type_annotation::apply_args_at, 1);
    reveal_with_fuel(crate::type_annotation::term_at, 1);
    assert(loc_types_in(List::Nil, state.span_from(state)));
    match space1(min_indent, arena, state) {
        Err(_) => Ok((Progress::NoProgress, List::Nil, state)),
        Ok((_, spaces, s1)) => match term(min_indent, arena, s1) {
            Err((Progress::NoProgress, _, _)) => Ok((Progress::NoProgress, List::Nil, state)),
            Err((Progress::MadeProgress, e, s)) => Err((Progress::MadeProgress, e, s)),
            Ok((_, arg, s2)) => {
                let arg = type_with_spaces_before(arena, spaces, arg);
                match apply_args(min_indent, arena, s2) {
                    Ok((_, rest, end)) => {
                        let args = List::cons(arena, arg, rest);
                        proof {
                            lemma_loc_types_widen(rest, end.span_from(s2), end.span_from(state));
                            assert(loc_types_in(args, end.span_from(state)));
                        }
                        Ok((Progress::MadeProgress, args, end))
                    },
                    Err((_, e, s)) => Err((Progress::MadeProgress, e, s)),
                }
            },
        },
    }
}

/// The type that may be applied to arguments at the cursor: a named type
/// with the arguments after it, or else a type that stands alone.
#[verifier::opaque]
pub open spec fn applied_at<'a>(min_indent: u16, state: State<'a>) -> ParseResult<
    'a,
    Located<TypeAnnotation<'a>>,
    EType,
>
    decreases state.input@.len() - state.offset, 2nat,
{
    match term_at(min_indent, state) {
        Err(e) => Err(e),
        Ok((_, head, s1)) => match head.value {
            TypeAnnotation::Apply(module_name, name, _) => if !state.leads_to(s1) {
                arbitrary()
            } else {
                match apply_args_at(min_indent, s1) {
                    Ok((_, args, end)) => Ok(
                        (
                            Progress::MadeProgress,
                            Located {
                                region: end.span_from(state),
                                value: TypeAnnotation::Apply(module_name, name, args),
                            },
                            end,
                        ),
                    ),
                    Err((_, e, s)) => Err((Progress::MadeProgress, e, s)),
                }
            },
            _ => Ok((Progress::MadeProgress, head, s1)),
        },
    }
}

/// Reads a type that may be applied to arguments: a named type with the
/// arguments after it, or else a type that stands alone.
pub fn applied<'a>(min_indent: u16, arena: &'a Arena, state: State<'a>) -> (r: ParseResult<
    'a,
    Located<TypeAnnotation<'a>>,
    EType,
>)
    requires
        state.wf(),
    ensures
        moves_on(r, state),
        r == applied_at(min_indent, state),
        r matches Ok((p, ann, s)) ==> p is MadeProgress && loc_type_in(ann, s.span_from(state)),
        r matches Err((p, e, s)) ==> (p is NoProgress ==> e == EType::Start(
            state.line,
            state.column,
        )),
    decreases state.input@.len() - state.offset, 2nat,
{
    reveal_with_fuel(crate::type_annotation::applied_at, 1);
    reveal_with_fuel(crate::type_annotation::term_at, 1);
    reveal_with_fuel(crate::type_annotation::apply_args_at, 1);
    let (_, head, s1) = match term(min_indent, arena, state) {
        Ok(ok) => ok,
        Err(e) => {
            return Err(e);
        },
    };
    match head.value {
        TypeAnnotation::Apply(module_name, name, _) => match apply_args(min_indent, arena, s1) {
            Ok((_, args, end)) => {
                proof {
                    lemma_loc_types_widen(args, end.span_from(s1), end.span_from(state));
                }
                Ok(
                    (
                        Progress::MadeProgress,
                        located(&state, &end, TypeAnnotation::Apply(module_name, name, args)),
                        end,
                    ),
                )
            },
            Err((_, e, s)) => Err((Progress::MadeProgress, e, s)),
        },
        _ => Ok((Progress::MadeProgress, head, s1)),
    }
}

/// The further arguments of a function type, each after a comma, as far
/// as they go, and the cursor after them.
#[verifier::opaque]
pub open spec fn more_arguments_at<'a>(min_indent: u16, state: State<'a>) -> (
    List<'a, Located<TypeAnnotation<'a>>>,
    State<'a>,
)
    decreases state.input@.len() - state.offset, 3nat,
{
    match spaces_at(false, min_indent, state) {
        Err(_) => (List::Nil, state),
        Ok((_, _, s1)) => match s1.spec_word1(COMMA) {
            None => (List::Nil, state),
            Some(s2) => match spaces_at(false, min_indent, s2) {
                Err(_) => (List::Nil, state),
                Ok((_, spaces, s3)) => if !state.leads_to(s3) {
                    arbitrary()
                } else {
                    match applied_at(min_indent, s3) {
                        Ok((_, arg, s4)) => if !state.leads_to(s4) {
                            arbitrary()
                        } else {
                            let rest = more_arguments_at(min_indent, s4);
                            (List::Cons(&spaced_type(spaces, arg), &rest.0), rest.1)
                        },
                        Err(_) => (List::Nil, state),
                    }
                },
            },
        },
    }
}

/// Reads the further arguments of a function type, each after a comma.
fn more_arguments<'a>(min_indent: u16, arena: &'a Arena, state: State<'a>) -> (r: (
    List<'a, Located<TypeAnnotation<'a>>>,
    State<'a>,
))
    requires
        state.wf(),
    ensures
        r.1.extends(state),
        r == more_arguments_at(min_indent, state),
        loc_types_in(r.0, r.1.span_from(state)),
    decreases state.input@.len() - state.offset, 3nat,
{
    reveal_with_fuel(crate::type_annotation::more_arguments_at, 1);
    reveal_with_fuel(crate::type_annotation::applied_at, 1);
    assert(loc_types_in(List::Nil, state.span_from(state)));
    let s1 = match space0(min_indent, arena, state) {
        Ok((_, _, s)) => s,
        Err(_) => {
            return (List::Nil, state);
        },
    };
    let s2 = match s1.word1(COMMA) {
        Some(s) => s,
        None => {
            return (List::Nil, state);
        },
    };
    let (spaces, s3) = match space0(min_indent, arena, s2) {
        Ok((_, spaces, s)) => (spaces, s),
        Err(_) => {
            return (List::Nil, state);
        },
    };
    match applied(min_indent, arena, s3) {
        Ok((_, arg, s4)) => {
            let arg = type_with_spaces_before(arena, spaces, arg);
            let (rest, end) = more_arguments(min_indent, arena, s4);
            let args = List::cons(arena, arg, rest);
            proof {
                lemma_loc_types_widen(rest, end.span_from(s4), end.span_from(state));
                assert(loc_types_in(args, end.span_from(state)));
            }
            (args, end)
        },
        Err(_) => (List::Nil, state),
    }
}

/// The type annotation at the cursor: a type, or a function type
/// `arg, arg -> result`. Commas that no arrow follows are not part of the
/// type.
#[verifier::opaque]
pub open spec fn located_type_at<'a>(min_indent: u16, state: State<'a>) -> ParseResult<
    'a,
    Located<TypeAnnotation<'a>>,
    EType,
>
    decreases state.input@.len() - state.offset, 4nat,
{
    match applied_at(min_indent, state) {
        Err(e) => Err(e),
        Ok((_, first, s1)) => if !state.leads_to(s1) {
            arbitrary()
        } else {
            let more = more_arguments_at(min_indent, s1);
            match spaces_at(false, min_indent, more.1) {
                Err(_) => Ok((Progress::MadeProgress, first, s1)),
                Ok((_, _, s3)) => match s3.spec_word(seq![MINUS, GREATER]) {
                    None => Ok((Progress::MadeProgress, first, s1)),
                    Some(s4) => match spaces_at(false, min_indent, s4) {
                        Err((_, problem, s)) => Err(
                            (
                                Progress::MadeProgress,
                                EType::space_of(problem, EType::IndentEnd(s.line, s.column), s),
                                s,
                            ),
                        ),
                        Ok((_, spaces, s5)) => if !state.leads_to(s5) {
                            arbitrary()
                        } else {
                            match located_type_at(min_indent, s5) {
                                Ok((_, result, end)) => Ok(
                                    (
                                        Progress::MadeProgress,
                                        Located {
                                            region: end.span_from(state),
                                            value: TypeAnnotation::Function(
                                                List::Cons(&first, &more.0),
                                                &spaced_type(spaces, result),
                                            ),
                                        },
                                        end,
                                    ),
                                ),
                                Err((_, e, s)) => Err((Progress::MadeProgress, e, s)),
                            }
                        },
                    },
                },
            }
        },
    }
}

/// Reads a type annotation: a type, or a function type
/// `arg, arg -> result`. Commas that no arrow follows are not part of the
/// type and are left alone.
pub fn located_type<'a>(min_indent: u16, arena: &'a Arena, state: State<'a>) -> (r: ParseResult<
    'a,
    Located<TypeAnnotation<'a>>,
    EType,
>)
    requires
        state.wf(),
    ensures
        moves_on(r, state),
        r == located_type_at(min_indent, state),
        r matches Ok((p, ann, s)) ==> p is MadeProgress && loc_type_in(ann, s.span_from(state)),
        r matches Err((p, e, s)) ==> (p is NoProgress ==> e == EType::Start(
            state.line,
            state.column,
        )),
    decreases state.input@.len() - state.offset, 4nat,
{
    reveal_with_fuel(crate::type_annotation::located_type_at, 1);
    reveal_with_fuel(crate::type_annotation::applied_at, 1);
    reveal_with_fuel(crate::type_annotation::more_arguments_at, 1);
    let (_, first, s1) = match applied(min_indent, arena, state) {
        Ok(ok) => ok,
        Err(e) => {
            return Err(e);
        },
    };
    let (more, s2) = more_arguments(min_indent, arena, s1);
    let s3 = match space0(min_indent, arena, s2) {
        Ok((_, _, s)) => s,
        Err(_) => {
            return Ok((Progress::MadeProgress, first, s1));
        },
    };
    let s4 = match s3.word2(MINUS, GREATER) {
        Some(s) => s,
        None => {
            return Ok((Progress::MadeProgress, first, s1));
        },
    };
    let (_, spaces, s5) = match space0(min_indent, arena, s4) {
        Ok(ok) => ok,
        Err((_, problem, s)) => {
            return Err(
                (
                    Progress::MadeProgress,
                    EType::space(problem, EType::IndentEnd(s.line, s.column), &s),
                    s,
                ),
            );
        },
    };
    match located_type(min_indent, arena, s5) {
        Ok((_, result, end)) => {
            let result = type_with_spaces_before(arena, spaces, result);
            let arguments = List::cons(arena, first, more);
            proof {
                lemma_loc_types_widen(more, s2.span_from(s1), end.span_from(state));
                assert(loc_types_in(arguments, end.span_from(state)));
            }
            Ok(
                (
                    Progress::MadeProgress,
                    located(
                        &state,
                        &end,
                        TypeAnnotation::Function(arguments, alloc_in(arena, result)),
                    ),
                    end,
                ),
            )
        },
        Err((_, e, s)) => Err((Progress::MadeProgress, e, s)),
    }
}

} // verus!
