//! Definitions: a pattern with `=` and a body, a pattern with `:` and a
//! type, and the blocks of definitions that stand before an expression.
//!
//! The definitions of a block all start in one column, the column of the
//! pattern of the first; the body or the type of each must begin to the
//! right of that column.

use vstd::prelude::*;
use crate::arena::{alloc_in, Arena, List};
use crate::ast::{CommentOrNewline, Def, Expr, Pattern, TypeAnnotation, Unsupported};
use crate::blankspace::{slice_of, space0, space1, spaces_at, HASH};
use crate::bounds::{
    def_in, expr_in, inside, label_in, lemma_loc_defs_widen, lemma_loc_patterns_widen,
    lemma_pattern_widen, loc_def_in, loc_defs_in, loc_expr_in, loc_pattern_in, loc_patterns_in,
    loc_type_in, pattern_in, type_in,
};
use crate::combinators::located;
use crate::errors::{moves_on, EExpr, EType, ParseResult, SyntaxError};
use crate::expr::{
    equals_for_def, equals_for_def_at, loc_expr, loc_expr_at, spaced_before, with_spaces_before,
    COLON,
};
use crate::pattern::{
    loc_closure_param, loc_closure_param_at, pattern_spaced_after, pattern_with_spaces_after,
};
use crate::region::{Located, Position, Region};
use crate::registry::bytes_eq;
use crate::state::{lemma_same_line, Progress, State, NEWLINE, SPACE};
use crate::type_annotation::{located_type, located_type_at, spaced_type};
use crate::when::beyond;

verus! {

// ---- annotations ----

/// The definition that annotating `pattern`, which stands in `region`,
/// with the type `ann` makes: an alias if the pattern is a tag or a tag
/// applied to arguments, an annotation if it is an identifier or a record
/// destructure, and otherwise a marker of what is not handled.
pub open spec fn annotation_of<'a>(
    pattern: Pattern<'a>,
    region: Region,
    ann: Located<TypeAnnotation<'a>>,
) -> Def<'a>
    decreases pattern,
{
    match pattern {
        Pattern::GlobalTag(name) => Def::Alias {
            name: Located { region, value: name },
            vars: List::Nil,
            ann,
        },
        Pattern::Apply(tag, vars) => match tag.value {
            Pattern::GlobalTag(name) => Def::Alias {
                name: Located { region: tag.region, value: name },
                vars,
                ann,
            },
            _ => Def::NotYetImplemented(Unsupported::InvalidApplyInAnnotation),
        },
        Pattern::SpaceAfter(inner, spaces) => Def::SpaceAfter(
            &annotation_of(*inner, region, ann),
            spaces,
        ),
        Pattern::SpaceBefore(inner, spaces) => Def::SpaceBefore(
            &annotation_of(*inner, region, ann),
            spaces,
        ),
        Pattern::Nested(inner) => annotation_of(*inner, region, ann),
        Pattern::PrivateTag(_) => Def::NotYetImplemented(Unsupported::PrivateTagAnnotated),
        Pattern::QualifiedIdentifier { .. } => Def::NotYetImplemented(
            Unsupported::QualifiedIdentifierAnnotated,
        ),
        Pattern::NumLiteral(_) => Def::NotYetImplemented(Unsupported::LiteralAnnotated),
        Pattern::NonBase10Literal { .. } => Def::NotYetImplemented(Unsupported::LiteralAnnotated),
        Pattern::FloatLiteral(_) => Def::NotYetImplemented(Unsupported::LiteralAnnotated),
        Pattern::StrLiteral(_) => Def::NotYetImplemented(Unsupported::LiteralAnnotated),
        Pattern::Underscore(_) => Def::NotYetImplemented(Unsupported::UnderscoreAnnotated),
        Pattern::Malformed(_) => Def::NotYetImplemented(Unsupported::MalformedPatternAnnotated),
        Pattern::Identifier(name) => Def::Annotation(
            Located { region, value: Pattern::Identifier(name) },
            ann,
        ),
        Pattern::RecordDestructure(fields) => Def::Annotation(
            Located { region, value: Pattern::RecordDestructure(fields) },
            ann,
        ),
        Pattern::RequiredField(_, _) => Def::NotYetImplemented(Unsupported::RecordFieldAnnotated),
        Pattern::OptionalField(_, _) => Def::NotYetImplemented(Unsupported::RecordFieldAnnotated),
    }
}

/// An annotation lies inside every region that its pattern and its type
/// lie inside.
pub proof fn lemma_annotation_in(
    pattern: Pattern,
    region: Region,
    ann: Located<TypeAnnotation>,
    r: Region,
)
    requires
        pattern_in(pattern, region),
        inside(r, region),
        loc_type_in(ann, r),
    ensures
        def_in(annotation_of(pattern, region, ann), r),
    decreases pattern,
{
    match pattern {
        Pattern::GlobalTag(name) => {
            assert(loc_patterns_in(List::Nil, r));
        },
        Pattern::Apply(tag, vars) => {
            lemma_loc_patterns_widen(vars, region, r);
        },
        Pattern::SpaceAfter(inner, spaces) => {
            lemma_annotation_in(*inner, region, ann, r);
        },
        Pattern::SpaceBefore(inner, spaces) => {
            lemma_annotation_in(*inner, region, ann, r);
        },
        Pattern::Nested(inner) => {
            lemma_annotation_in(*inner, region, ann, r);
        },
        Pattern::Identifier(name) => {
            assert(pattern_in(Pattern::Identifier(name), region));
        },
        Pattern::RecordDestructure(fields) => {
            assert(pattern_in(Pattern::RecordDestructure(fields), region));
        },
        _ => {},
    }
}

/// Annotating never makes a definition with a body.
pub proof fn lemma_annotation_has_no_body(
    pattern: Pattern,
    region: Region,
    ann: Located<TypeAnnotation>,
)
    ensures
        !(annotation_of(pattern, region, ann) is Body),
        !(annotation_of(pattern, region, ann) is AnnotatedBody),
    decreases pattern,
{
    match pattern {
        Pattern::Nested(inner) => {
            lemma_annotation_has_no_body(*inner, region, ann);
        },
        _ => {},
    }
}

/// Makes the definition that annotating `pattern` with `loc_ann` is. Type
/// aliases are first read as tags, or tags applied to arguments, because
/// their names begin with an upper-case letter.
pub fn annotation_or_alias<'a>(
    arena: &'a Arena,
    pattern: &Pattern<'a>,
    pattern_region: Region,
    loc_ann: Located<TypeAnnotation<'a>>,
) -> (r: Def<'a>)
    ensures
        r == annotation_of(*pattern, pattern_region, loc_ann),
    decreases *pattern,
{
    match *pattern {
        Pattern::GlobalTag(name) => Def::Alias {
            name: Located { region: pattern_region, value: name },
            vars: List::Nil,
            ann: loc_ann,
        },
        Pattern::Apply(tag, vars) => match tag.value {
            Pattern::GlobalTag(name) => Def::Alias {
                name: Located { region: tag.region, value: name },
                vars,
                ann: loc_ann,
            },
            _ => Def::NotYetImplemented(Unsupported::InvalidApplyInAnnotation),
        },
        Pattern::SpaceAfter(inner, spaces) => Def::SpaceAfter(
            alloc_in(arena, annotation_or_alias(arena, inner, pattern_region, loc_ann)),
            spaces,
        ),
        Pattern::SpaceBefore(inner, spaces) => Def::SpaceBefore(
            alloc_in(arena, annotation_or_alias(arena, inner, pattern_region, loc_ann)),
            spaces,
        ),
        Pattern::Nested(inner) => annotation_or_alias(arena, inner, pattern_region, loc_ann),
        Pattern::PrivateTag(_) => Def::NotYetImplemented(Unsupported::PrivateTagAnnotated),
        Pattern::QualifiedIdentifier { .. } => Def::NotYetImplemented(
            Unsupported::QualifiedIdentifierAnnotated,
        ),
        Pattern::NumLiteral(_) => Def::NotYetImplemented(Unsupported::LiteralAnnotated),
        Pattern::NonBase10Literal { .. } => Def::NotYetImplemented(Unsupported::LiteralAnnotated),
        Pattern::FloatLiteral(_) => Def::NotYetImplemented(Unsupported::LiteralAnnotated),
        Pattern::StrLiteral(_) => Def::NotYetImplemented(Unsupported::LiteralAnnotated),
        Pattern::Underscore(_) => Def::NotYetImplemented(Unsupported::UnderscoreAnnotated),
        Pattern::Malformed(_) => Def::NotYetImplemented(Unsupported::MalformedPatternAnnotated),
        // This is a regular annotation.
        Pattern::Identifier(name) => Def::Annotation(
            Located { region: pattern_region, value: Pattern::Identifier(name) },
            loc_ann,
        ),
        // This is the annotation of a record destructure.
        Pattern::RecordDestructure(fields) => Def::Annotation(
            Located { region: pattern_region, value: Pattern::RecordDestructure(fields) },
            loc_ann,
        ),
        Pattern::RequiredField(_, _) => Def::NotYetImplemented(Unsupported::RecordFieldAnnotated),
        Pattern::OptionalField(_, _) => Def::NotYetImplemented(Unsupported::RecordFieldAnnotated),
    }
}

/// The name that a pattern binds, if the pattern is an identifier, with
/// or without white space around it.
pub open spec fn label_of<'a>(pattern: Pattern<'a>) -> Option<&'a [u8]>
    decreases pattern,
{
    match pattern {
        Pattern::Identifier(name) => Some(name),
        Pattern::SpaceBefore(inner, _) => label_of(*inner),
        Pattern::SpaceAfter(inner, _) => label_of(*inner),
        Pattern::Nested(inner) => label_of(*inner),
        _ => None,
    }
}

pub fn pattern_label<'a>(pattern: &Pattern<'a>) -> (r: Option<&'a [u8]>)
    ensures
        r == label_of(*pattern),
    decreases *pattern,
{
    match *pattern {
        Pattern::Identifier(name) => Some(name),
        Pattern::SpaceBefore(inner, _) => pattern_label(inner),
        Pattern::SpaceAfter(inner, _) => pattern_label(inner),
        Pattern::Nested(inner) => pattern_label(inner),
        _ => None,
    }
}

/// Two patterns bind the same name.
pub open spec fn same_label(a: Pattern, b: Pattern) -> bool {
    label_of(a) is Some && label_of(b) is Some && label_of(a)->0@ == label_of(b)->0@
}

pub fn labels_agree<'a>(a: &Pattern<'a>, b: &Pattern<'a>) -> (r: bool)
    ensures
        r == same_label(*a, *b),
{
    match (pattern_label(a), pattern_label(b)) {
        (Some(x), Some(y)) => bytes_eq(x, y),
        _ => false,
    }
}

// ---- the parts of a definition ----

/// The column one to the right of `column`.
pub fn indented_beyond(column: u16) -> (r: u16)
    ensures
        r == beyond(column),
        r == if column < u16::MAX {
            column + 1
        } else {
            column as int
        },
{
    if column < u16::MAX {
        column + 1
    } else {
        column
    }
}

/// What reading the pattern that a definition binds, with the white
/// space after it, comes to.
#[verifier::opaque]
pub open spec fn pattern_at<'a>(min_indent: u16, state: State<'a>) -> ParseResult<
    'a,
    Located<Pattern<'a>>,
    SyntaxError<'a>,
>
    decreases state.input@.len() - state.offset, 9nat,
{
    match loc_closure_param_at(min_indent, state) {
        Err((p, e, s)) => Err((p, SyntaxError::Pattern(e), s)),
        Ok((_, found, s1)) => match spaces_at(false, min_indent, s1) {
            Ok((_, spaces, end)) => Ok(
                (Progress::MadeProgress, pattern_spaced_after(spaces, found), end),
            ),
            Err((_, problem, s)) => Err(
                (Progress::MadeProgress, SyntaxError::space_of(problem), s),
            ),
        },
    }
}

/// Reads the pattern that a definition binds, with the white space after
/// it.
pub fn pattern<'a>(min_indent: u16, arena: &'a Arena, state: State<'a>) -> (r: ParseResult<
    'a,
    Located<Pattern<'a>>,
    SyntaxError<'a>,
>)
    requires
        state.wf(),
    ensures
        r == pattern_at(min_indent, state),
        moves_on(r, state),
        r matches Ok((p, v, s)) ==> p is MadeProgress && loc_pattern_in(v, s.span_from(state))
            && v.region.start() == state.position(),
    decreases state.input@.len() - state.offset, 9nat,
{
    reveal_with_fuel(crate::def::pattern_at, 1);
    reveal_with_fuel(crate::pattern::loc_closure_param_at, 1);
    let (_, found, s1) = match loc_closure_param(min_indent, arena, state) {
        Ok(ok) => ok,
        Err((p, e, s)) => {
            return Err((p, SyntaxError::Pattern(e), s));
        },
    };
    match space0(min_indent, arena, s1) {
        Ok((_, spaces, end)) => Ok(
            (Progress::MadeProgress, pattern_with_spaces_after(arena, spaces, found), end),
        ),
        Err((_, problem, s)) => Err((Progress::MadeProgress, SyntaxError::space(problem), s)),
    }
}

/// Where the spaces that start at `off` end.
pub open spec fn spaces_end(input: Seq<u8>, off: int) -> int
    decreases input.len() - off,
{
    if 0 <= off < input.len() && input[off] == SPACE {
        spaces_end(input, off + 1)
    } else {
        off
    }
}

/// Consumes spaces.
pub fn skip_spaces<'a>(state: State<'a>) -> (s: State<'a>)
    requires
        state.wf(),
    ensures
        s == state.at(spaces_end(state.input@, state.offset as int)),
        s.extends(state),
        s.offset == spaces_end(state.input@, state.offset as int),
        s.line == state.line,
        !s.at_byte(SPACE),
{
    let mut cur = state;
    loop
        invariant_except_break
            spaces_end(state.input@, cur.offset as int) == spaces_end(
                state.input@,
                state.offset as int,
            ),
        invariant
            cur.extends(state),
            state.wf(),
            forall|k: int| state.offset <= k < cur.offset ==> state.input@[k] == SPACE,
        ensures
            cur.offset == spaces_end(state.input@, state.offset as int),
            !cur.at_byte(SPACE),
        decreases cur.input@.len() - cur.offset,
    {
        match cur.peek() {
            Some(b) => {
                if b == SPACE {
                    cur = cur.advance();
                } else {
                    break ;
                }
            },
            None => {
                break ;
            },
        }
    }
    proof {
        lemma_same_line(state.input@, state.offset as int, cur.offset as int);
        crate::state::lemma_state_at(state, cur);
    }
    cur
}

/// Where the line that `off` is on ends: at its line break, or at the end
/// of the input.
pub open spec fn line_end(input: Seq<u8>, off: int) -> int
    decreases input.len() - off,
{
    if 0 <= off < input.len() && input[off] != NEWLINE {
        line_end(input, off + 1)
    } else {
        off
    }
}

/// Consumes the rest of the line, without its line break.
fn skip_line<'a>(state: State<'a>) -> (s: State<'a>)
    requires
        state.wf(),
    ensures
        s.extends(state),
        s.offset == line_end(state.input@, state.offset as int),
        s.line == state.line,
        s.offset < s.input@.len() ==> s.at_byte(NEWLINE),
{
    let mut cur = state;
    loop
        invariant_except_break
            line_end(state.input@, cur.offset as int) == line_end(
                state.input@,
                state.offset as int,
            ),
        invariant
            cur.extends(state),
            state.wf(),
            forall|k: int| state.offset <= k < cur.offset ==> state.input@[k] != NEWLINE,
        ensures
            cur.offset == line_end(state.input@, state.offset as int),
            cur.offset < cur.input@.len() ==> cur.at_byte(NEWLINE),
        decreases cur.input@.len() - cur.offset,
    {
        match cur.peek() {
            Some(b) => {
                if b != NEWLINE {
                    cur = cur.advance();
                } else {
                    break ;
                }
            },
            None => {
                break ;
            },
        }
    }
    proof {
        lemma_same_line(state.input@, state.offset as int, cur.offset as int);
    }
    cur
}

/// What reading spaces and then a line break or a line comment comes to.
#[verifier::opaque]
pub open spec fn spaces_then_comment_or_newline_at<'a>(state: State<'a>) -> ParseResult<
    'a,
    Option<&'a [u8]>,
    SyntaxError<'a>,
> {
    let at = spaces_end(state.input@, state.offset as int);
    if 0 <= at < state.input@.len() && state.input@[at] == NEWLINE {
        Ok((Progress::MadeProgress, None, state.at(at + 1)))
    } else if 0 <= at < state.input@.len() && state.input@[at] == HASH {
        let end = line_end(state.input@, at + 1);
        Ok(
            (
                Progress::MadeProgress,
                Some(state.text(at + 1, end)),
                state.at(
                    if end < state.input@.len() {
                        end + 1
                    } else {
                        end
                    },
                ),
            ),
        )
    } else {
        Err((Progress::NoProgress, SyntaxError::ConditionFailed, state))
    }
}

/// Reads what may stand between an annotation and the body it annotates:
/// spaces, and then either a line break or a line comment with its line
/// break. Hands back the text of the comment, if there is one. Anything
/// else is a failure without progress.
pub fn spaces_then_comment_or_newline<'a>(state: State<'a>) -> (r: ParseResult<
    'a,
    Option<&'a [u8]>,
    SyntaxError<'a>,
>)
    requires
        state.wf(),
    ensures
        r == spaces_then_comment_or_newline_at(state),
        moves_on(r, state),
        r is Ok <==> {
            let at = spaces_end(state.input@, state.offset as int);
            0 <= at < state.input@.len() && (state.input@[at] == NEWLINE || state.input@[at]
                == HASH)
        },
        r matches Ok((p, v, s)) ==> {
            let at = spaces_end(state.input@, state.offset as int);
            &&& p is MadeProgress
            &&& v is Some <==> state.input@[at] == HASH
            &&& v matches Some(text) ==> text@ == state.input@.subrange(
                at + 1,
                line_end(state.input@, at + 1),
            )
            &&& s.column == 0 || s.offset == state.input@.len()
        },
        r matches Err((p, e, _)) ==> p is NoProgress && e == SyntaxError::ConditionFailed,
{
    reveal(spaces_then_comment_or_newline_at);
    let s1 = skip_spaces(state);
    match s1.peek() {
        Some(b) => {
            if b == NEWLINE {
                let end = s1.advance();
                proof {
                    crate::state::lemma_state_at(state, end);
                }
                Ok((Progress::MadeProgress, None, end))
            } else if b == HASH {
                let text_start = s1.advance();
                let text_end = skip_line(text_start);
                let text: &'a [u8] = slice_of(state.input, text_start.offset, text_end.offset);
                let end = match text_end.peek() {
                    Some(_) => text_end.advance(),
                    None => text_end,
                };
                proof {
                    crate::state::lemma_state_at(state, end);
                }
                Ok((Progress::MadeProgress, Some(text), end))
            } else {
                Err((Progress::NoProgress, SyntaxError::ConditionFailed, state))
            }
        },
        None => Err((Progress::NoProgress, SyntaxError::ConditionFailed, state)),
    }
}

/// Like `spaces_then_comment_or_newline`, with the error of an
/// expression.
pub fn spaces_then_comment_or_newline_help<'a>(arena: &'a Arena, state: State<'a>) -> (r:
    ParseResult<'a, Option<&'a [u8]>, EExpr<'a>>)
    requires
        state.wf(),
    ensures
        r == crate::combinators::syntax_in_expr_of(spaces_then_comment_or_newline_at(state)),
        moves_on(r, state),
        r matches Ok((p, v, s)) ==> p is MadeProgress,
        r matches Err((p, e, _)) ==> p is NoProgress,
{
    crate::combinators::syntax_in_expr(arena, spaces_then_comment_or_newline(state))
}

pub type Body<'a> = (Located<Pattern<'a>>, Located<Expr<'a>>);

/// What reading the body that an annotation annotates comes to.
#[verifier::opaque]
pub open spec fn body_at_indent_at<'a>(indent_level: u16, state: State<'a>) -> ParseResult<
    'a,
    Body<'a>,
    SyntaxError<'a>,
>
    decreases state.input@.len() - state.offset, 10nat,
{
    let s1 = state.at(spaces_end(state.input@, state.offset as int));
    if s1.column != indent_level {
        Err((Progress::NoProgress, SyntaxError::ConditionFailed, state))
    } else if !state.reaches(s1) {
        arbitrary()
    } else {
        match pattern_at(indent_level, s1) {
            Err((_, e, _)) => Err((Progress::NoProgress, e, state)),
            Ok((_, found, s2)) => match equals_for_def_at(s2) {
                Err((_, e, _)) => Err((Progress::NoProgress, e, state)),
                Ok((_, _, s3)) => match spaces_at(false, indent_level, s3) {
                    Err((_, problem, s)) => Err(
                        (Progress::MadeProgress, SyntaxError::space_of(problem), s),
                    ),
                    Ok((_, spaces, s4)) => if s4.column <= indent_level {
                        Err(
                            (
                                Progress::MadeProgress,
                                SyntaxError::Expr(EExpr::IndentDefBody(s4.line, s4.column)),
                                s4,
                            ),
                        )
                    } else if !state.leads_to(s4) {
                        arbitrary()
                    } else {
                        match loc_expr_at(beyond(indent_level), s4) {
                            Ok((_, body, end)) => Ok(
                                (Progress::MadeProgress, (found, spaced_before(spaces, body)), end),
                            ),
                            Err((_, e, s)) => Err((Progress::MadeProgress, e, s)),
                        }
                    },
                },
            },
        }
    }
}

#[verifier::opaque]
pub open spec fn body_at_indent_help_at<'a>(indent_level: u16, state: State<'a>) -> ParseResult<
    'a,
    Body<'a>,
    EExpr<'a>,
>
    decreases state.input@.len() - state.offset, 11nat,
{
    crate::combinators::syntax_in_expr_of(body_at_indent_at(indent_level, state))
}

pub type Annotated<'a> = Option<(Option<&'a [u8]>, Located<Pattern<'a>>, Located<Expr<'a>>)>;

/// What reading, after an annotation of `ann_pattern`, the body that it
/// annotates comes to.
#[verifier::opaque]
pub open spec fn annotated_body_at<'a>(
    column: u16,
    ann_pattern: Pattern<'a>,
    state: State<'a>,
) -> ParseResult<'a, Annotated<'a>, SyntaxError<'a>>
    decreases state.input@.len() - state.offset, 12nat,
{
    match spaces_then_comment_or_newline_at(state) {
        Err(_) => Ok((Progress::NoProgress, None, state)),
        Ok((_, comment, s1)) => {
            let s2 = s1.at(spaces_end(s1.input@, s1.offset as int));
            if s2.column != column {
                Ok((Progress::NoProgress, None, state))
            } else if !state.leads_to(s2) || !state.leads_to(s1) {
                arbitrary()
            } else {
                match pattern_at(column, s2) {
                    Err(_) => Ok((Progress::NoProgress, None, state)),
                    Ok((_, found, _)) => if !same_label(ann_pattern, found.value) {
                        Ok((Progress::NoProgress, None, state))
                    } else {
                        match body_at_indent_at(column, s1) {
                            Ok((_, v, end)) => if same_label(ann_pattern, v.0.value) {
                                Ok((Progress::MadeProgress, Some((comment, v.0, v.1)), end))
                            } else {
                                Ok((Progress::NoProgress, None, state))
                            },
                            Err((Progress::NoProgress, _, _)) => Ok(
                                (Progress::NoProgress, None, state),
                            ),
                            Err((Progress::MadeProgress, e, s)) => Err(
                                (Progress::MadeProgress, e, s),
                            ),
                        }
                    },
                }
            }
        },
    }
}

/// Reads the body that an annotation on the line before annotates: at the
/// start of a line, exactly `indent_level` spaces, a pattern, `=` and an
/// expression that begins to the right of the column `indent_level`.
///
/// Up to the `=` nothing is final: if the line is no such body, this
/// fails without progress.
pub fn body_at_indent<'a>(indent_level: u16, arena: &'a Arena, state: State<'a>) -> (r: ParseResult<
    'a,
    (Located<Pattern<'a>>, Located<Expr<'a>>),
    SyntaxError<'a>,
>)
    requires
        state.wf(),
    ensures
        r == body_at_indent_at(indent_level, state),
        moves_on(r, state),
        r matches Ok((p, v, s)) ==> {
            &&& p is MadeProgress
            &&& loc_pattern_in(v.0, s.span_from(state))
            &&& loc_expr_in(v.1, s.span_from(state))
            &&& v.0.region.start_col == indent_level
            &&& v.1.region.start_col > indent_level
            &&& v.0.region.end().le(v.1.region.start())
            &&& v.0.region.start().le(v.1.region.start())
        },
    decreases state.input@.len() - state.offset, 10nat,
{
    reveal_with_fuel(crate::def::body_at_indent_at, 1);
    reveal_with_fuel(crate::def::pattern_at, 1);
    reveal_with_fuel(crate::expr::loc_expr_at, 1);
    let s1 = skip_spaces(state);
    if s1.column != indent_level {
        return Err((Progress::NoProgress, SyntaxError::ConditionFailed, state));
    }
    let (_, found, s2) = match pattern(indent_level, arena, s1) {
        Ok(ok) => ok,
        Err((_, e, _)) => {
            return Err((Progress::NoProgress, e, state));
        },
    };
    let s3 = match equals_for_def(s2) {
        Ok((_, _, s)) => s,
        Err((_, e, _)) => {
            return Err((Progress::NoProgress, e, state));
        },
    };
    // Spaces after the '=' (at a normal indentation level) and then the
    // expression, which must be indented more than the pattern and '='.
    let (_, spaces, s4) = match space0(indent_level, arena, s3) {
        Ok(ok) => ok,
        Err((_, problem, s)) => {
            return Err((Progress::MadeProgress, SyntaxError::space(problem), s));
        },
    };
    if s4.column <= indent_level {
        return Err(
            (
                Progress::MadeProgress,
                SyntaxError::Expr(EExpr::IndentDefBody(s4.line, s4.column)),
                s4,
            ),
        );
    }
    match loc_expr(indented_beyond(indent_level), arena, s4) {
        Ok((_, body, end)) => Ok(
            (Progress::MadeProgress, (found, with_spaces_before(arena, spaces, body)), end),
        ),
        Err((_, e, s)) => Err((Progress::MadeProgress, e, s)),
    }
}

pub fn body_at_indent_help<'a>(indent_level: u16, arena: &'a Arena, state: State<'a>) -> (r:
    ParseResult<'a, (Located<Pattern<'a>>, Located<Expr<'a>>), EExpr<'a>>)
    requires
        state.wf(),
    ensures
        r == body_at_indent_help_at(indent_level, state),
        moves_on(r, state),
        r matches Ok((p, v, s)) ==> {
            &&& p is MadeProgress
            &&& loc_pattern_in(v.0, s.span_from(state))
            &&& loc_expr_in(v.1, s.span_from(state))
            &&& v.0.region.start_col == indent_level
            &&& v.1.region.start_col > indent_level
            &&& v.0.region.end().le(v.1.region.start())
            &&& v.0.region.start().le(v.1.region.start())
        },
    decreases state.input@.len() - state.offset, 11nat,
{
    reveal_with_fuel(crate::def::body_at_indent_help_at, 1);
    reveal_with_fuel(crate::def::body_at_indent_at, 1);
    crate::combinators::syntax_in_expr(arena, body_at_indent(indent_level, arena, state))
}

/// Reads, after an annotation of `ann_pattern`, the body that it
/// annotates, if the next line holds one: a body in the column `column`
/// whose pattern binds the name that `ann_pattern` binds.
fn annotated_body<'a>(
    column: u16,
    ann_pattern: &Pattern<'a>,
    arena: &'a Arena,
    state: State<'a>,
) -> (r: ParseResult<
    'a,
    Option<(Option<&'a [u8]>, Located<Pattern<'a>>, Located<Expr<'a>>)>,
    SyntaxError<'a>,
>)
    requires
        state.wf(),
    ensures
        r == annotated_body_at(column, *ann_pattern, state),
        moves_on(r, state),
        r matches Ok((p, found, s)) ==> (found is None <==> p is NoProgress) && (
        found matches Some(v) ==> {
            &&& loc_pattern_in(v.1, s.span_from(state))
            &&& loc_expr_in(v.2, s.span_from(state))
            &&& v.1.region.start_col == column
            &&& v.2.region.start_col > column
            &&& v.1.region.end().le(v.2.region.start())
            &&& v.1.region.start().le(v.2.region.start())
            &&& same_label(*ann_pattern, v.1.value)
        }),
        r matches Err((p, _, _)) ==> p is MadeProgress,
    decreases state.input@.len() - state.offset, 12nat,
{
    reveal_with_fuel(crate::def::annotated_body_at, 1);
    reveal_with_fuel(crate::def::pattern_at, 1);
    reveal_with_fuel(crate::def::body_at_indent_at, 1);
    let (comment, s1) = match spaces_then_comment_or_newline(state) {
        Ok((_, comment, s)) => (comment, s),
        Err(_) => {
            return Ok((Progress::NoProgress, None, state));
        },
    };
    // Look at the pattern first: only a body for the annotated name is
    // joined to the annotation.
    let s2 = skip_spaces(s1);
    if s2.column != column {
        return Ok((Progress::NoProgress, None, state));
    }
    match pattern(column, arena, s2) {
        Ok((_, found, _)) => {
            if !labels_agree(ann_pattern, &found.value) {
                return Ok((Progress::NoProgress, None, state));
            }
        },
        Err(_) => {
            return Ok((Progress::NoProgress, None, state));
        },
    }
    match body_at_indent(column, arena, s1) {
        Ok((_, (body_pattern, body_expr), end)) => {
            if labels_agree(ann_pattern, &body_pattern.value) {
                proof {
                    lemma_loc_pattern_widen(body_pattern, end.span_from(s1), end.span_from(state));
                    lemma_loc_expr_widen(body_expr, end.span_from(s1), end.span_from(state));
                }
                Ok((Progress::MadeProgress, Some((comment, body_pattern, body_expr)), end))
            } else {
                Ok((Progress::NoProgress, None, state))
            }
        },
        Err((Progress::NoProgress, _, _)) => Ok((Progress::NoProgress, None, state)),
        Err((Progress::MadeProgress, e, s)) => Err((Progress::MadeProgress, e, s)),
    }
}

/// A located pattern that lies inside a region lies inside every wider
/// one.
pub proof fn lemma_loc_pattern_widen(l: Located<Pattern>, r1: Region, r2: Region)
    requires
        loc_pattern_in(l, r1),
        r2.encloses(r1),
    ensures
        loc_pattern_in(l, r2),
{
}

/// A located expression that lies inside a region lies inside every
/// wider one.
pub proof fn lemma_loc_expr_widen(l: Located<Expr>, r1: Region, r2: Region)
    requires
        loc_expr_in(l, r1),
        r2.encloses(r1),
    ensures
        loc_expr_in(l, r2),
{
}

/// What reading a definition comes to.
#[verifier::opaque]
pub open spec fn def_at<'a>(min_indent: u16, state: State<'a>) -> ParseResult<
    'a,
    Def<'a>,
    SyntaxError<'a>,
>
    decreases state.input@.len() - state.offset, 10nat,
{
    match pattern_at(min_indent, state) {
        Err((_, e, _)) => Err((Progress::NoProgress, e, state)),
        Ok((_, bound, s1)) => match equals_for_def_at(s1) {
            Ok((_, _, s2)) => match spaces_at(false, min_indent, s2) {
                Err((_, problem, s)) => Err(
                    (Progress::MadeProgress, SyntaxError::space_of(problem), s),
                ),
                Ok((_, spaces, s3)) => if s3.column <= bound.region.start_col {
                    Err(
                        (
                            Progress::MadeProgress,
                            SyntaxError::Expr(EExpr::IndentDefBody(s3.line, s3.column)),
                            s3,
                        ),
                    )
                } else if !state.leads_to(s3) {
                    arbitrary()
                } else {
                    match loc_expr_at(beyond(bound.region.start_col), s3) {
                        Ok((_, body, end)) => Ok(
                            (
                                Progress::MadeProgress,
                                Def::Body(&bound, &spaced_before(spaces, body)),
                                end,
                            ),
                        ),
                        Err((_, e, s)) => Err((Progress::MadeProgress, e, s)),
                    }
                },
            },
            Err(_) => match s1.spec_word1(COLON) {
                None => Err((Progress::NoProgress, SyntaxError::ConditionFailed, state)),
                Some(s2) => match spaces_at(false, min_indent, s2) {
                    Err((_, problem, s)) => Err(
                        (Progress::MadeProgress, SyntaxError::space_of(problem), s),
                    ),
                    Ok((_, spaces, s3)) => if s3.column <= bound.region.start_col {
                        Err(
                            (
                                Progress::MadeProgress,
                                SyntaxError::Expr(EExpr::IndentAnnotation(s3.line, s3.column)),
                                s3,
                            ),
                        )
                    } else {
                        match located_type_at(beyond(bound.region.start_col), s3) {
                            Err((_, e, s)) => Err(
                                (Progress::MadeProgress, SyntaxError::Type(e), s),
                            ),
                            Ok((_, ann, s4)) => if !state.leads_to(s4) {
                                arbitrary()
                            } else {
                                match annotated_body_at(bound.region.start_col, bound.value, s4) {
                                    Ok((_, Some(body), end)) => Ok(
                                        (
                                            Progress::MadeProgress,
                                            Def::AnnotatedBody {
                                                ann_pattern: &bound,
                                                ann_type: &spaced_type(spaces, ann),
                                                comment: body.0,
                                                body_pattern: &body.1,
                                                body_expr: &body.2,
                                            },
                                            end,
                                        ),
                                    ),
                                    Ok((_, None, _)) => Ok(
                                        (
                                            Progress::MadeProgress,
                                            annotation_of(
                                                bound.value,
                                                bound.region,
                                                spaced_type(spaces, ann),
                                            ),
                                            s4,
                                        ),
                                    ),
                                    Err((_, e, s)) => Err((Progress::MadeProgress, e, s)),
                                }
                            },
                        }
                    },
                },
            },
        },
    }
}

/// Reads a definition. It is one of these:
///
/// * a pattern followed by `=` and then an expression;
/// * a type annotation, or a type alias, using `:`;
/// * a type annotation followed on the next line by the pattern it
///   annotates, an `=`, and an expression.
///
/// Up to the `=` or `:` nothing is final: a pattern that neither follows
/// is no definition, and the failure is one without progress. The
/// expression or the type must begin in a column to the right of the one
/// in which the pattern starts, or else the definition fails
/// (`IndentDefBody`, `IndentAnnotation`). A body is joined to the
/// annotation before it only if it binds the name that is annotated.
pub fn def<'a>(min_indent: u16, arena: &'a Arena, state: State<'a>) -> (r: ParseResult<
    'a,
    Def<'a>,
    SyntaxError<'a>,
>)
    requires
        state.wf(),
    ensures
        r == def_at(min_indent, state),
        moves_on(r, state),
        r matches Ok((p, d, s)) ==> p is MadeProgress && def_in(d, s.span_from(state)) && (d is Body
            || d is AnnotatedBody || d is Annotation || d is Alias || d is SpaceBefore
            || d is SpaceAfter || d is NotYetImplemented),
        r matches Ok((p, d, s)) ==> (d matches Def::Body(bound, body) ==> bound.region.start()
            == state.position() && body.region.start_col > bound.region.start_col),
        r matches Ok((p, d, s)) ==> (d matches Def::AnnotatedBody {
            ann_pattern,
            ann_type,
            comment,
            body_pattern,
            body_expr,
        } ==> ann_pattern.region.start() == state.position() && body_pattern.region.start_col
            == ann_pattern.region.start_col && body_expr.region.start_col
            > body_pattern.region.start_col && same_label(ann_pattern.value, body_pattern.value)),
    decreases state.input@.len() - state.offset, 10nat,
{
    reveal_with_fuel(crate::def::def_at, 1);
    reveal_with_fuel(crate::def::pattern_at, 1);
    reveal_with_fuel(crate::expr::loc_expr_at, 1);
    reveal_with_fuel(crate::type_annotation::located_type_at, 1);
    reveal_with_fuel(crate::def::annotated_body_at, 1);
    // Nothing of the pattern is final: in
    //
    //     i = 0
    //     i
    //
    // the `i` of the last line is a pattern, and yet no definition.
    let read_pattern = |s: State<'a>| -> (r: ParseResult<'a, Located<Pattern<'a>>, SyntaxError<'a>>)
        requires
            s == state,
        ensures
            r == pattern_at(min_indent, s),
            moves_on(r, s),
            r matches Ok((p, v, end)) ==> p is MadeProgress && loc_pattern_in(v, end.span_from(s))
                && v.region.start() == s.position(),
        { pattern(min_indent, arena, s) };
    let (_, bound, s1) = match crate::combinators::backtrackable(read_pattern, state) {
        Ok(ok) => ok,
        Err(e) => {
            return Err(e);
        },
    };
    let column: u16 = bound.region.start_col;
    let indented_more: u16 = indented_beyond(column);
    match equals_for_def(s1) {
        Ok((_, _, s2)) => {
            // Spaces after the '=' (at a normal indentation level) and
            // then the expression, which must be indented more than the
            // pattern.
            let (_, spaces, s3) = match space0(min_indent, arena, s2) {
                Ok(ok) => ok,
                Err((_, problem, s)) => {
                    return Err((Progress::MadeProgress, SyntaxError::space(problem), s));
                },
            };
            if s3.column <= column {
                return Err(
                    (
                        Progress::MadeProgress,
                        SyntaxError::Expr(EExpr::IndentDefBody(s3.line, s3.column)),
                        s3,
                    ),
                );
            }
            match loc_expr(indented_more, arena, s3) {
                Ok((_, body, end)) => {
                    let body = with_spaces_before(arena, spaces, body);
                    let d = Def::Body(alloc_in(arena, bound), alloc_in(arena, body));
                    assert(def_in(d, end.span_from(state)));
                    Ok((Progress::MadeProgress, d, end))
                },
                Err((_, e, s)) => Err((Progress::MadeProgress, e, s)),
            }
        },
        Err(_) => match s1.word1(COLON) {
            None => Err((Progress::NoProgress, SyntaxError::ConditionFailed, state)),
            Some(s2) => {
                // Spaces after the ':' (at a normal indentation level)
                // and then the type, which must be indented more than the
                // pattern.
                let (_, spaces, s3) = match space0(min_indent, arena, s2) {
                    Ok(ok) => ok,
                    Err((_, problem, s)) => {
                        return Err((Progress::MadeProgress, SyntaxError::space(problem), s));
                    },
                };
                if s3.column <= column {
                    return Err(
                        (
                            Progress::MadeProgress,
                            SyntaxError::Expr(EExpr::IndentAnnotation(s3.line, s3.column)),
                            s3,
                        ),
                    );
                }
                let (_, ann, s4) = match located_type(indented_more, arena, s3) {
                    Ok(ok) => ok,
                    Err((_, e, s)) => {
                        return Err((Progress::MadeProgress, SyntaxError::Type(e), s));
                    },
                };
                let ann = type_with_spaces(arena, spaces, ann);
                // The body that the annotation annotates may follow.
                match annotated_body(column, &bound.value, arena, s4) {
                    Ok((_, Some((comment, body_pattern, body_expr)), end)) => {
                        let d = Def::AnnotatedBody {
                            ann_pattern: alloc_in(arena, bound),
                            ann_type: alloc_in(arena, ann),
                            comment,
                            body_pattern: alloc_in(arena, body_pattern),
                            body_expr: alloc_in(arena, body_expr),
                        };
                        assert(def_in(d, end.span_from(state)));
                        Ok((Progress::MadeProgress, d, end))
                    },
                    Ok((_, None, _)) => {
                        proof {
                            lemma_annotation_in(
                                bound.value,
                                bound.region,
                                ann,
                                s4.span_from(state),
                            );
                            lemma_annotation_has_no_body(bound.value, bound.region, ann);
                        }
                        let d = annotation_or_alias(arena, &bound.value, bound.region, ann);
                        Ok((Progress::MadeProgress, d, s4))
                    },
                    Err((_, e, s)) => Err((Progress::MadeProgress, e, s)),
                }
            },
        },
    }
}

/// Wraps a type in the white space that was read before it, if any.
pub fn type_with_spaces<'a>(
    arena: &'a Arena,
    spaces: &'a [CommentOrNewline<'a>],
    ann: Located<TypeAnnotation<'a>>,
) -> (r: Located<TypeAnnotation<'a>>)
    ensures
        r == spaced_type(spaces, ann),
        r.region == ann.region,
        type_in(ann.value, ann.region) ==> type_in(r.value, r.region),
{
    if spaces.len() == 0 {
        ann
    } else {
        Located {
            region: ann.region,
            value: TypeAnnotation::SpaceBefore(alloc_in(arena, ann.value), spaces),
        }
    }
}

/// A definition with the white space that was read before it, if any.
pub open spec fn def_spaced_before<'a>(
    spaces: &'a [CommentOrNewline<'a>],
    d: Located<Def<'a>>,
) -> Located<Def<'a>> {
    if spaces@.len() == 0 {
        d
    } else {
        Located { region: d.region, value: Def::SpaceBefore(&d.value, spaces) }
    }
}

/// Wraps a definition in the white space that was read before it, if
/// any.
pub fn def_with_spaces_before<'a>(
    arena: &'a Arena,
    spaces: &'a [CommentOrNewline<'a>],
    d: Located<Def<'a>>,
) -> (r: Located<Def<'a>>)
    ensures
        r == def_spaced_before(spaces, d),
        r.region == d.region,
        def_in(d.value, d.region) ==> def_in(r.value, r.region),
{
    if spaces.len() == 0 {
        d
    } else {
        Located { region: d.region, value: Def::SpaceBefore(alloc_in(arena, d.value), spaces) }
    }
}

/// The definitions that follow the first of a block, as far as they go.
#[verifier::opaque]
pub open spec fn parse_defs_at<'a>(column: u16, state: State<'a>) -> ParseResult<
    'a,
    List<'a, Located<Def<'a>>>,
    SyntaxError<'a>,
>
    decreases state.input@.len() - state.offset, 14nat,
{
    match spaces_at(true, column, state) {
        Err(_) => Ok((Progress::NoProgress, List::Nil, state)),
        Ok((_, spaces, s1)) => if s1.column != column {
            Ok((Progress::NoProgress, List::Nil, state))
        } else if !state.leads_to(s1) {
            arbitrary()
        } else {
            match def_at(column, s1) {
                Err((Progress::NoProgress, _, _)) => Ok((Progress::NoProgress, List::Nil, state)),
                Err((Progress::MadeProgress, e, s)) => Err((Progress::MadeProgress, e, s)),
                Ok((_, d, s2)) => if !state.leads_to(s2) {
                    arbitrary()
                } else {
                    match parse_defs_at(column, s2) {
                        Ok((_, rest, end)) => Ok(
                            (
                                Progress::MadeProgress,
                                List::Cons(
                                    &def_spaced_before(
                                        spaces,
                                        Located { region: s2.span_from(s1), value: d },
                                    ),
                                    &rest,
                                ),
                                end,
                            ),
                        ),
                        Err(e) => Err(e),
                    }
                },
            }
        },
    }
}

/// Reads the definitions that follow the first of a block, as far as they
/// go: each stands after white space and starts in the column `column`.
/// White space that no such definition follows is left unread.
pub fn parse_defs<'a>(column: u16, arena: &'a Arena, state: State<'a>) -> (r: ParseResult<
    'a,
    List<'a, Located<Def<'a>>>,
    SyntaxError<'a>,
>)
    requires
        state.wf(),
    ensures
        r == parse_defs_at(column, state),
        moves_on(r, state),
        r matches Ok((p, defs, s)) ==> loc_defs_in(defs, s.span_from(state)),
        r matches Err((p, _, _)) ==> p is MadeProgress,
    decreases state.input@.len() - state.offset, 14nat,
{
    reveal_with_fuel(crate::def::parse_defs_at, 1);
    reveal_with_fuel(crate::def::def_at, 1);
    assert(loc_defs_in(List::Nil, state.span_from(state)));
    let (spaces, s1) = match space1(column, arena, state) {
        Ok((_, spaces, s)) => (spaces, s),
        Err(_) => {
            return Ok((Progress::NoProgress, List::Nil, state));
        },
    };
    if s1.column != column {
        return Ok((Progress::NoProgress, List::Nil, state));
    }
    let (d, s2) = match def(column, arena, s1) {
        Ok((_, d, s)) => (d, s),
        Err((Progress::NoProgress, _, _)) => {
            return Ok((Progress::NoProgress, List::Nil, state));
        },
        Err((Progress::MadeProgress, e, s)) => {
            return Err((Progress::MadeProgress, e, s));
        },
    };
    let loc_def = def_with_spaces_before(arena, spaces, located(&s1, &s2, d));
    match parse_defs(column, arena, s2) {
        Ok((_, rest, end)) => {
            let defs = List::cons(arena, loc_def, rest);
            proof {
                lemma_loc_defs_widen(rest, end.span_from(s2), end.span_from(state));
                assert(loc_defs_in(defs, end.span_from(state)));
            }
            Ok((Progress::MadeProgress, defs, end))
        },
        Err(e) => Err(e),
    }
}

/// The region from where `first` starts to where the cursor `end` stands.
pub open spec fn block_region(first: Region, end: State) -> Region {
    Region::between(first.start(), end.position())
}

/// What reading the rest of a block of definitions that begins with
/// `loc_first_pattern = ...` comes to.
#[verifier::opaque]
pub open spec fn parse_def_expr_at<'a>(
    min_indent: u16,
    def_start_col: u16,
    equals_sign_indent: u16,
    state: State<'a>,
    loc_first_pattern: Located<Pattern<'a>>,
    spaces_after_equals: &'a [CommentOrNewline<'a>],
) -> ParseResult<'a, Expr<'a>, SyntaxError<'a>>
    decreases state.input@.len() - state.offset, 13nat,
{
    if def_start_col < min_indent {
        Err((Progress::NoProgress, SyntaxError::OutdentedTooFar, state))
    } else if equals_sign_indent < def_start_col {
        Err(
            (
                Progress::NoProgress,
                SyntaxError::EqualsOutdented { equals_indent: equals_sign_indent, def_start_col },
                state,
            ),
        )
    } else if state.column <= def_start_col {
        Err(
            (
                Progress::NoProgress,
                SyntaxError::Expr(EExpr::IndentDefBody(state.line, state.column)),
                state,
            ),
        )
    } else {
        match loc_expr_at((def_start_col + 1) as u16, state) {
            Err(e) => Err(e),
            Ok((_, first_body, s1)) => if !state.leads_to(s1) {
                arbitrary()
            } else {
                match parse_defs_at(def_start_col, s1) {
                    Err((_, e, s)) => Err((Progress::MadeProgress, e, s)),
                    Ok((_, more, s2)) => match spaces_at(true, def_start_col, s2) {
                        Err((_, problem, s)) => Err(
                            (Progress::MadeProgress, SyntaxError::space_of(problem), s),
                        ),
                        Ok((_, spaces_before_ret, s3)) => if !state.leads_to(s3) {
                            arbitrary()
                        } else {
                            match loc_expr_at(def_start_col, s3) {
                                Err((_, e, s)) => Err((Progress::MadeProgress, e, s)),
                                Ok((_, ret, end)) => {
                                    let first_body = spaced_before(
                                        spaces_after_equals,
                                        first_body,
                                    );
                                    Ok(
                                        (
                                            Progress::MadeProgress,
                                            Expr::Defs(
                                                List::Cons(
                                                    &(Located {
                                                        region: Region::between(
                                                            loc_first_pattern.region.start(),
                                                            first_body.region.end(),
                                                        ),
                                                        value: Def::Body(
                                                            &loc_first_pattern,
                                                            &first_body,
                                                        ),
                                                    }),
                                                    &more,
                                                ),
                                                &spaced_before(spaces_before_ret, ret),
                                            ),
                                            end,
                                        ),
                                    )
                                },
                            }
                        },
                    },
                }
            },
        }
    }
}

#[verifier::opaque]
pub open spec fn parse_def_expr_help_at<'a>(
    min_indent: u16,
    def_start_col: u16,
    equals_sign_indent: u16,
    state: State<'a>,
    loc_first_pattern: Located<Pattern<'a>>,
    spaces_after_equals: &'a [CommentOrNewline<'a>],
) -> ParseResult<'a, Expr<'a>, EExpr<'a>>
    decreases state.input@.len() - state.offset, 14nat,
{
    match parse_def_expr_at(
        min_indent,
        def_start_col,
        equals_sign_indent,
        state,
        loc_first_pattern,
        spaces_after_equals,
    ) {
        Ok(good) => Ok(good),
        Err((progress, fail, s)) => Err((progress, EExpr::Def(&fail, s.line, s.column), s)),
    }
}

/// Reads the rest of a block of definitions whose first definition is
/// `loc_first_pattern = ...`, from the cursor after the `=` and the white
/// space `spaces_after_equals` that followed it: the body of the first
/// definition, the further definitions of the block, and the expression
/// that the block ends with.
///
/// `def_start_col` is the column in which the pattern starts, and
/// `equals_sign_indent` the indentation of the line of the `=`. It is a
/// failure without progress
///
/// * if the pattern starts to the left of `min_indent`: `OutdentedTooFar`;
/// * else if the `=` is indented less than the pattern: `EqualsOutdented`;
/// * else if the body does not begin to the right of the column of the
///   pattern: `IndentDefBody`.
pub fn parse_def_expr<'a>(
    min_indent: u16,
    def_start_col: u16,
    equals_sign_indent: u16,
    arena: &'a Arena,
    state: State<'a>,
    loc_first_pattern: Located<Pattern<'a>>,
    spaces_after_equals: &'a [CommentOrNewline<'a>],
) -> (r: ParseResult<'a, Expr<'a>, SyntaxError<'a>>)
    requires
        state.wf(),
        loc_first_pattern.region.valid(),
        pattern_in(loc_first_pattern.value, loc_first_pattern.region),
        loc_first_pattern.region.end().le(state.position()),
    ensures
        r == parse_def_expr_at(
            min_indent,
            def_start_col,
            equals_sign_indent,
            state,
            loc_first_pattern,
            spaces_after_equals,
        ),
        moves_on(r, state),
        def_start_col < min_indent ==> r == Err::<(Progress, Expr<'a>, State<'a>), _>(
            (Progress::NoProgress, SyntaxError::OutdentedTooFar, state),
        ),
        def_start_col >= min_indent && equals_sign_indent < def_start_col ==> r == Err::<
            (Progress, Expr<'a>, State<'a>),
            _,
        >(
            (
                Progress::NoProgress,
                SyntaxError::EqualsOutdented { equals_indent: equals_sign_indent, def_start_col },
                state,
            ),
        ),
        def_start_col >= min_indent && equals_sign_indent >= def_start_col && state.column
            <= def_start_col ==> r == Err::<(Progress, Expr<'a>, State<'a>), _>(
            (
                Progress::NoProgress,
                SyntaxError::Expr(EExpr::IndentDefBody(state.line, state.column)),
                state,
            ),
        ),
        r matches Ok((p, e, s)) ==> {
            &&& p is MadeProgress
            &&& expr_in(e, block_region(loc_first_pattern.region, s))
            &&& e matches Expr::Defs(defs, _) && defs matches List::Cons(first, _)
                && first.value matches Def::Body(bound, body) && *bound == loc_first_pattern
                && body.region.start_col > def_start_col
        },
    decreases state.input@.len() - state.offset, 13nat,
{
    reveal_with_fuel(crate::def::parse_def_expr_at, 1);
    reveal_with_fuel(crate::expr::loc_expr_at, 1);
    reveal_with_fuel(crate::def::parse_defs_at, 1);
    if def_start_col < min_indent {
        return Err((Progress::NoProgress, SyntaxError::OutdentedTooFar, state));
    }
    // The '=' should be indented as much as the whole block, or more.
    if equals_sign_indent < def_start_col {
        return Err(
            (
                Progress::NoProgress,
                SyntaxError::EqualsOutdented { equals_indent: equals_sign_indent, def_start_col },
                state,
            ),
        );
    }
    if state.column <= def_start_col {
        return Err(
            (
                Progress::NoProgress,
                SyntaxError::Expr(EExpr::IndentDefBody(state.line, state.column)),
                state,
            ),
        );
    }
    // Indented more beyond the indentation of the whole block.
    let indented_more: u16 = def_start_col + 1;
    // The body of the first definition needs no spaces read around it:
    // the definitions after it and the final expression read their own.
    let (_, first_body, s1) = match loc_expr(indented_more, arena, state) {
        Ok(ok) => ok,
        Err(e) => {
            return Err(e);
        },
    };
    // There may be further definitions.
    let (_, more, s2) = match parse_defs(def_start_col, arena, s1) {
        Ok(ok) => ok,
        Err((_, e, s)) => {
            return Err((Progress::MadeProgress, e, s));
        },
    };
    // The final expression, which the block returns, is indented as much
    // as the block.
    let (_, spaces_before_ret, s3) = match space1(def_start_col, arena, s2) {
        Ok(ok) => ok,
        Err((_, problem, s)) => {
            return Err((Progress::MadeProgress, SyntaxError::space(problem), s));
        },
    };
    let (_, ret, end) = match loc_expr(def_start_col, arena, s3) {
        Ok(ok) => ok,
        Err((_, e, s)) => {
            return Err((Progress::MadeProgress, e, s));
        },
    };
    let ret = with_spaces_before(arena, spaces_before_ret, ret);
    let first_body = with_spaces_before(arena, spaces_after_equals, first_body);
    let def_region = Region::span_across(&loc_first_pattern.region, &first_body.region);
    let first_def = Def::Body(alloc_in(arena, loc_first_pattern), alloc_in(arena, first_body));
    let loc_first_def = Located { region: def_region, value: first_def };
    // The first definition comes first.
    let defs = List::cons(arena, loc_first_def, more);
    let e = Expr::Defs(defs, alloc_in(arena, ret));
    proof {
        let whole = block_region(loc_first_pattern.region, end);
        assert(def_in(first_def, def_region));
        lemma_loc_defs_widen(more, s2.span_from(s1), whole);
        assert(loc_defs_in(defs, whole));
        assert(expr_in(e, whole));
    }
    Ok((Progress::MadeProgress, e, end))
}

/// Like `parse_def_expr`, with the error of an expression.
pub fn parse_def_expr_help<'a>(
    min_indent: u16,
    def_start_col: u16,
    equals_sign_indent: u16,
    arena: &'a Arena,
    state: State<'a>,
    loc_first_pattern: Located<Pattern<'a>>,
    spaces_after_equals: &'a [CommentOrNewline<'a>],
) -> (r: ParseResult<'a, Expr<'a>, EExpr<'a>>)
    requires
        state.wf(),
        loc_first_pattern.region.valid(),
        pattern_in(loc_first_pattern.value, loc_first_pattern.region),
        loc_first_pattern.region.end().le(state.position()),
    ensures
        r == parse_def_expr_help_at(
            min_indent,
            def_start_col,
            equals_sign_indent,
            state,
            loc_first_pattern,
            spaces_after_equals,
        ),
        moves_on(r, state),
        (def_start_col < min_indent || equals_sign_indent < def_start_col || state.column
            <= def_start_col) ==> r is Err,
        r matches Ok((p, e, s)) ==> {
            &&& p is MadeProgress
            &&& expr_in(e, block_region(loc_first_pattern.region, s))
            &&& e matches Expr::Defs(defs, _) && defs matches List::Cons(first, _)
                && first.value matches Def::Body(bound, body) && *bound == loc_first_pattern
                && body.region.start_col > def_start_col
        },
    decreases state.input@.len() - state.offset, 14nat,
{
    reveal_with_fuel(crate::def::parse_def_expr_help_at, 1);
    reveal_with_fuel(crate::def::parse_def_expr_at, 1);
    match parse_def_expr(
        min_indent,
        def_start_col,
        equals_sign_indent,
        arena,
        state,
        loc_first_pattern,
        spaces_after_equals,
    ) {
        Ok(good) => Ok(good),
        Err((progress, fail, s)) => {
            let row: u32 = s.line;
            let col: u16 = s.column;
            Err((progress, EExpr::Def(alloc_in(arena, fail), row, col), s))
        },
    }
}

/// The definitions that follow an annotation at the start of a block, as
/// far as they go, and the cursor after them.
#[verifier::opaque]
pub open spec fn defs_after_annotation_at<'a>(column: u16, state: State<'a>) -> (
    List<'a, Located<Def<'a>>>,
    State<'a>,
)
    decreases state.input@.len() - state.offset, 14nat,
{
    match spaces_at(false, column, state) {
        Err(_) => (List::Nil, state),
        Ok((_, spaces, s1)) => if s1.column != column || s1.offset == state.offset {
            (List::Nil, state)
        } else if !state.leads_to(s1) {
            arbitrary()
        } else {
            match def_at(column, s1) {
                Ok((_, d, s2)) => if !state.leads_to(s2) {
                    arbitrary()
                } else {
                    let rest = defs_after_annotation_at(column, s2);
                    (
                        List::Cons(
                            &def_spaced_before(
                                spaces,
                                Located { region: s2.span_from(s1), value: d },
                            ),
                            &rest.0,
                        ),
                        rest.1,
                    )
                },
                Err(_) => (List::Nil, state),
            }
        },
    }
}

/// What reading the rest of a block of definitions that begins with the
/// annotation `loc_first_pattern : ...` comes to.
#[verifier::opaque]
pub open spec fn parse_def_signature_help_at<'a>(
    min_indent: u16,
    colon_indent: u16,
    state: State<'a>,
    loc_first_pattern: Located<Pattern<'a>>,
) -> ParseResult<'a, Expr<'a>, EExpr<'a>>
    decreases state.input@.len() - state.offset, 13nat,
{
    let column = loc_first_pattern.region.start_col;
    if column < min_indent || colon_indent < column {
        Err((Progress::NoProgress, EExpr::IndentDefBody(state.line, state.column), state))
    } else {
        match spaces_at(false, min_indent, state) {
            Err((p, problem, s)) => Err(
                (p, EExpr::space_of(problem, EExpr::IndentAnnotation(s.line, s.column), s), s),
            ),
            Ok((_, spaces, s1)) => if s1.column <= column {
                Err(
                    (
                        Progress::NoProgress,
                        EExpr::IndentAnnotation(state.line, state.column),
                        state,
                    ),
                )
            } else {
                match located_type_at(beyond(column), s1) {
                    Err((Progress::NoProgress, e, _)) => Err(
                        (Progress::NoProgress, EExpr::Type(e, state.line, state.column), state),
                    ),
                    Err((Progress::MadeProgress, e, s)) => Err(
                        (Progress::MadeProgress, EExpr::Type(e, s1.line, s1.column), s),
                    ),
                    Ok((_, ann, s2)) => if !state.leads_to(s2) {
                        arbitrary()
                    } else {
                        match annotated_body_at(column, loc_first_pattern.value, s2) {
                            Err((_, e, s)) => Err(
                                (
                                    Progress::MadeProgress,
                                    EExpr::Syntax(&e, s.line, s.column),
                                    s,
                                ),
                            ),
                            Ok((_, fused, s3)) => if !state.leads_to(s3) {
                                arbitrary()
                            } else {
                                let more = defs_after_annotation_at(column, s3);
                                match spaces_at(false, column, more.1) {
                                    Err((_, problem, s)) => Err(
                                        (
                                            Progress::MadeProgress,
                                            EExpr::space_of(
                                                problem,
                                                EExpr::IndentEnd(s.line, s.column),
                                                s,
                                            ),
                                            s,
                                        ),
                                    ),
                                    Ok((_, spaces_before_ret, s5)) => if !state.leads_to(s5) {
                                        arbitrary()
                                    } else {
                                        match crate::combinators::syntax_in_expr_of(
                                            loc_expr_at(column, s5),
                                        ) {
                                            Err((_, e, s)) => Err((Progress::MadeProgress, e, s)),
                                            Ok((_, ret, end)) => Ok(
                                                (
                                                    Progress::MadeProgress,
                                                    Expr::Defs(
                                                        List::Cons(
                                                            &first_of_signature(
                                                                loc_first_pattern,
                                                                spaced_type(spaces, ann),
                                                                fused,
                                                            ),
                                                            &more.0,
                                                        ),
                                                        &spaced_before(spaces_before_ret, ret),
                                                    ),
                                                    end,
                                                ),
                                            ),
                                        }
                                    },
                                }
                            },
                        }
                    },
                }
            },
        }
    }
}

/// The first definition of a block that begins with an annotation: the
/// annotation alone, or joined to the body that it annotates.
pub open spec fn first_of_signature<'a>(
    loc_first_pattern: Located<Pattern<'a>>,
    ann: Located<TypeAnnotation<'a>>,
    fused: Annotated<'a>,
) -> Located<Def<'a>> {
    match fused {
        None => Located {
            region: Region::between(loc_first_pattern.region.start(), ann.region.end()),
            value: annotation_of(loc_first_pattern.value, loc_first_pattern.region, ann),
        },
        Some(body) => Located {
            region: Region::between(loc_first_pattern.region.start(), body.2.region.end()),
            value: Def::AnnotatedBody {
                ann_pattern: &loc_first_pattern,
                ann_type: &ann,
                comment: body.0,
                body_pattern: &body.1,
                body_expr: &body.2,
            },
        },
    }
}

/// `first` is the definition that a block begins with when the block
/// begins with an annotation of `bound`. It starts where `bound` starts.
/// It is the annotation or alias that the type makes of `bound`, and ends
/// where the type ends; or, where the next line holds the body that is
/// annotated, it is the two joined: then the body stands in the column of
/// `bound`, binds the name that `bound` binds, has its expression to the
/// right of that column, and the definition ends where the expression
/// ends. An annotation is joined to no other body.
pub open spec fn begins_with_annotation<'a>(
    first: Located<Def<'a>>,
    bound: Located<Pattern<'a>>,
) -> bool {
    &&& first.region.start() == bound.region.start()
    &&& match first.value {
        Def::AnnotatedBody { ann_pattern, ann_type, comment, body_pattern, body_expr } => {
            &&& *ann_pattern == bound
            &&& same_label(bound.value, body_pattern.value)
            &&& body_pattern.region.start_col == bound.region.start_col
            &&& body_expr.region.start_col > bound.region.start_col
            &&& first.region == Region::between(bound.region.start(), body_expr.region.end())
        },
        other => exists|ann: Located<TypeAnnotation<'a>>|
            other == annotation_of(bound.value, bound.region, ann) && first.region
                == Region::between(bound.region.start(), ann.region.end()),
    }
}

/// Reads the definitions that follow an annotation at the start of a
/// block, as far as they go. Nothing of a definition is final here: one
/// that cannot be read is left unread.
fn defs_after_annotation<'a>(column: u16, arena: &'a Arena, state: State<'a>) -> (r: (
    List<'a, Located<Def<'a>>>,
    State<'a>,
))
    requires
        state.wf(),
    ensures
        r == defs_after_annotation_at(column, state),
        r.1.extends(state),
        loc_defs_in(r.0, r.1.span_from(state)),
    decreases state.input@.len() - state.offset, 14nat,
{
    reveal_with_fuel(crate::def::defs_after_annotation_at, 1);
    reveal_with_fuel(crate::def::def_at, 1);
    assert(loc_defs_in(List::Nil, state.span_from(state)));
    let (spaces, s1) = match space0(column, arena, state) {
        Ok((_, spaces, s)) => (spaces, s),
        Err(_) => {
            return (List::Nil, state);
        },
    };
    if s1.column != column || s1.offset == state.offset {
        return (List::Nil, state);
    }
    match def(column, arena, s1) {
        Ok((_, d, s2)) => {
            let loc_def = def_with_spaces_before(arena, spaces, located(&s1, &s2, d));
            let (rest, end) = defs_after_annotation(column, arena, s2);
            let defs = List::cons(arena, loc_def, rest);
            proof {
                lemma_loc_defs_widen(rest, end.span_from(s2), end.span_from(state));
                assert(loc_defs_in(defs, end.span_from(state)));
            }
            (defs, end)
        },
        Err(_) => (List::Nil, state),
    }
}

/// Reads the rest of a block of definitions whose first definition is
/// the annotation `loc_first_pattern : ...`, from the cursor after the
/// `:`: the type, the body that the annotation annotates if the next line
/// holds it, the further definitions of the block, and the expression
/// that the block ends with.
///
/// `colon_indent` is the indentation of the line of the `:`. It is a
/// failure without progress, `IndentDefBody`, if the pattern starts to the
/// left of `min_indent`, or the `:` is indented less than the pattern.
pub fn parse_def_signature_help<'a>(
    min_indent: u16,
    colon_indent: u16,
    arena: &'a Arena,
    state: State<'a>,
    loc_first_pattern: Located<Pattern<'a>>,
) -> (r: ParseResult<'a, Expr<'a>, EExpr<'a>>)
    requires
        state.wf(),
        loc_first_pattern.region.valid(),
        pattern_in(loc_first_pattern.value, loc_first_pattern.region),
        loc_first_pattern.region.end().le(state.position()),
    ensures
        r == parse_def_signature_help_at(min_indent, colon_indent, state, loc_first_pattern),
        moves_on(r, state),
        (loc_first_pattern.region.start_col < min_indent || colon_indent
            < loc_first_pattern.region.start_col) ==> r == Err::<
            (Progress, Expr<'a>, State<'a>),
            _,
        >((Progress::NoProgress, EExpr::IndentDefBody(state.line, state.column), state)),
        r matches Ok((p, e, s)) ==> {
            &&& p is MadeProgress
            &&& expr_in(e, block_region(loc_first_pattern.region, s))
            &&& e matches Expr::Defs(defs, _) && defs is Cons
        },
        r matches Ok((_, e, _)) ==> (e matches Expr::Defs(defs, _) ==> (defs matches List::Cons(
            first,
            _,
        ) ==> begins_with_annotation(*first, loc_first_pattern))),
    decreases state.input@.len() - state.offset, 13nat,
{
    reveal_with_fuel(crate::def::parse_def_signature_help_at, 1);
    reveal_with_fuel(crate::type_annotation::located_type_at, 1);
    reveal_with_fuel(crate::def::annotated_body_at, 1);
    reveal_with_fuel(crate::def::defs_after_annotation_at, 1);
    reveal_with_fuel(crate::expr::loc_expr_at, 1);
    let column: u16 = loc_first_pattern.region.start_col;
    if column < min_indent {
        return Err(
            (Progress::NoProgress, EExpr::IndentDefBody(state.line, state.column), state),
        );
    }
    // The ':' should be indented as much as the whole block, or more.
    if colon_indent < column {
        return Err(
            (Progress::NoProgress, EExpr::IndentDefBody(state.line, state.column), state),
        );
    }
    // Indented more beyond the indentation of the whole block.
    let indented_more: u16 = indented_beyond(column);
    let (_, spaces, s1) = match space0(min_indent, arena, state) {
        Ok(ok) => ok,
        Err((p, problem, s)) => {
            return Err(
                (p, EExpr::space(problem, EExpr::IndentAnnotation(s.line, s.column), &s), s),
            );
        },
    };
    if s1.column <= column {
        return Err(
            (Progress::NoProgress, EExpr::IndentAnnotation(state.line, state.column), state),
        );
    }
    let (_, ann, s2) = match located_type(indented_more, arena, s1) {
        Ok(ok) => ok,
        Err((Progress::NoProgress, e, _)) => {
            return Err((Progress::NoProgress, EExpr::Type(e, state.line, state.column), state));
        },
        Err((Progress::MadeProgress, e, s)) => {
            return Err((Progress::MadeProgress, EExpr::Type(e, s1.line, s1.column), s));
        },
    };
    let ann = type_with_spaces(arena, spaces, ann);
    // The annotation may be followed at once by the body it annotates,
    // in the same column.
    let (fused, s3) = match annotated_body(column, &loc_first_pattern.value, arena, s2) {
        Ok((_, found, s)) => (found, s),
        Err((_, e, s)) => {
            return Err(
                (Progress::MadeProgress, EExpr::Syntax(alloc_in(arena, e), s.line, s.column), s),
            );
        },
    };
    // There may be further definitions.
    let (more, s4) = defs_after_annotation(column, arena, s3);
    // The final expression, which the block returns, is indented as much
    // as the block.
    let (_, spaces_before_ret, s5) = match space0(column, arena, s4) {
        Ok(ok) => ok,
        Err((_, problem, s)) => {
            return Err(
                (
                    Progress::MadeProgress,
                    EExpr::space(problem, EExpr::IndentEnd(s.line, s.column), &s),
                    s,
                ),
            );
        },
    };
    let (_, ret, end) = match crate::combinators::syntax_in_expr(
        arena,
        loc_expr(column, arena, s5),
    ) {
        Ok(ok) => ok,
        Err((_, e, s)) => {
            return Err((Progress::MadeProgress, e, s));
        },
    };
    let ret = with_spaces_before(arena, spaces_before_ret, ret);
    let ghost whole = block_region(loc_first_pattern.region, end);
    let loc_first_def = match fused {
        None => {
            let region = Region::span_across(&loc_first_pattern.region, &ann.region);
            proof {
                lemma_annotation_in(
                    loc_first_pattern.value,
                    loc_first_pattern.region,
                    ann,
                    region,
                );
                lemma_annotation_has_no_body(
                    loc_first_pattern.value,
                    loc_first_pattern.region,
                    ann,
                );
            }
            let first = Located {
                region,
                value: annotation_or_alias(
                    arena,
                    &loc_first_pattern.value,
                    loc_first_pattern.region,
                    ann,
                ),
            };
            assert(begins_with_annotation(first, loc_first_pattern));
            first
        },
        Some((comment, body_pattern, body_expr)) => {
            let region = Region::span_across(&loc_first_pattern.region, &body_expr.region);
            let d = Def::AnnotatedBody {
                ann_pattern: alloc_in(arena, loc_first_pattern),
                ann_type: alloc_in(arena, ann),
                comment,
                body_pattern: alloc_in(arena, body_pattern),
                body_expr: alloc_in(arena, body_expr),
            };
            assert(def_in(d, region));
            let first = Located { region, value: d };
            assert(begins_with_annotation(first, loc_first_pattern));
            first
        },
    };
    // The annotation comes just before the definitions that follow it.
    let defs = List::cons(arena, loc_first_def, more);
    let e = Expr::Defs(defs, alloc_in(arena, ret));
    proof {
        lemma_loc_defs_widen(more, s4.span_from(s3), whole);
        assert(loc_defs_in(defs, whole));
        assert(expr_in(e, whole));
    }
    Ok((Progress::MadeProgress, e, end))
}

} // verus!
