//! Reading an expression again as a pattern. What stands to the left of
//! the `=` of a definition is first read as an expression; once the `=` is
//! seen it is turned into the pattern that the same text would be.

use vstd::prelude::*;
use crate::arena::{alloc_in, Arena, List};
use crate::ast::{AssignedField, Expr, Ident, Pattern};
use crate::bounds::{
    expr_field_in, expr_in, inside, loc_expr_fields_in, loc_exprs_in, loc_patterns_in, pattern_in,
};
use crate::errors::SyntaxError;
use crate::region::{Located, Region};
use crate::state::State;

verus! {

/// The pattern that an expression can be read as, if it can. Variables,
/// tags, applications, literals and records without an update can, as can
/// such expressions in parentheses or with white space around them;
/// nothing else can.
pub open spec fn pattern_of_expr<'a>(e: Expr<'a>) -> Option<Pattern<'a>>
    decreases e,
{
    match e {
        Expr::Var { module_name, ident } => Some(
            if module_name@.len() == 0 {
                Pattern::Identifier(ident)
            } else {
                Pattern::QualifiedIdentifier { module_name, ident }
            },
        ),
        Expr::GlobalTag(name) => Some(Pattern::GlobalTag(name)),
        Expr::PrivateTag(name) => Some(Pattern::PrivateTag(name)),
        Expr::Apply(f, args, _) => match (pattern_of_expr(f.value), patterns_of_exprs(args)) {
            (Some(tag), Some(arg_patterns)) => Some(
                Pattern::Apply(&Located { region: f.region, value: tag }, arg_patterns),
            ),
            _ => None,
        },
        Expr::SpaceBefore(inner, spaces) => match pattern_of_expr(*inner) {
            Some(p) => Some(Pattern::SpaceBefore(&p, spaces)),
            None => None,
        },
        Expr::SpaceAfter(inner, spaces) => match pattern_of_expr(*inner) {
            Some(p) => Some(Pattern::SpaceAfter(&p, spaces)),
            None => None,
        },
        Expr::ParensAround(inner) => pattern_of_expr(*inner),
        Expr::Nested(inner) => pattern_of_expr(*inner),
        Expr::Record { update, fields, final_comments } => match update {
            None => match patterns_of_fields(fields) {
                Some(patterns) => Some(Pattern::RecordDestructure(patterns)),
                None => None,
            },
            Some(_) => None,
        },
        Expr::Float(text) => Some(Pattern::FloatLiteral(text)),
        Expr::Num(text) => Some(Pattern::NumLiteral(text)),
        Expr::NonBase10Int { string, base, is_negative } => Some(
            Pattern::NonBase10Literal { string, base, is_negative },
        ),
        Expr::Str(text) => Some(Pattern::StrLiteral(text)),
        Expr::MalformedIdent(_) => None,
        Expr::AccessorFunction(_) => None,
        Expr::Access(_, _) => None,
        Expr::List { .. } => None,
        Expr::Closure(_, _) => None,
        Expr::BinOp(_) => None,
        Expr::Defs(_, _) => None,
        Expr::If(_, _) => None,
        Expr::When(_, _) => None,
        Expr::MalformedClosure => None,
        Expr::PrecedenceConflict(_, _, _) => None,
        Expr::UnaryOp(_, _) => None,
    }
}

/// The patterns of a list of expressions, each in the region of its
/// expression, if every one of them can be read as a pattern.
pub open spec fn patterns_of_exprs<'a>(list: List<'a, Located<Expr<'a>>>) -> Option<
    List<'a, Located<Pattern<'a>>>,
>
    decreases list,
{
    match list {
        List::Nil => Some(List::Nil),
        List::Cons(head, tail) => match (pattern_of_expr(head.value), patterns_of_exprs(*tail)) {
            (Some(p), Some(rest)) => Some(
                List::Cons(&Located { region: head.region, value: p }, &rest),
            ),
            _ => None,
        },
    }
}

/// The pattern that a field of a record expression can be read as.
pub open spec fn pattern_of_field<'a>(f: AssignedField<'a, Expr<'a>>) -> Option<Pattern<'a>>
    decreases f,
{
    match f {
        AssignedField::RequiredValue(name, spaces, value) => match pattern_of_expr(value.value) {
            Some(p) => {
                let field = Pattern::RequiredField(
                    name.value,
                    &Located { region: value.region, value: p },
                );
                Some(
                    if spaces@.len() == 0 {
                        field
                    } else {
                        Pattern::SpaceAfter(&field, spaces)
                    },
                )
            },
            None => None,
        },
        AssignedField::OptionalValue(name, spaces, value) => {
            let field = Pattern::OptionalField(name.value, value);
            Some(
                if spaces@.len() == 0 {
                    field
                } else {
                    Pattern::SpaceAfter(&field, spaces)
                },
            )
        },
        AssignedField::LabelOnly(name) => Some(Pattern::Identifier(name.value)),
        AssignedField::SpaceBefore(inner, spaces) => match pattern_of_field(*inner) {
            Some(p) => Some(Pattern::SpaceBefore(&p, spaces)),
            None => None,
        },
        AssignedField::SpaceAfter(inner, spaces) => match pattern_of_field(*inner) {
            Some(p) => Some(Pattern::SpaceAfter(&p, spaces)),
            None => None,
        },
        AssignedField::Malformed(text) => Some(Pattern::Malformed(text)),
    }
}

/// The patterns of the fields of a record expression, each in the region
/// of its field.
pub open spec fn patterns_of_fields<'a>(
    list: List<'a, Located<AssignedField<'a, Expr<'a>>>>,
) -> Option<List<'a, Located<Pattern<'a>>>>
    decreases list,
{
    match list {
        List::Nil => Some(List::Nil),
        List::Cons(head, tail) => match (pattern_of_field(head.value), patterns_of_fields(*tail)) {
            (Some(p), Some(rest)) => Some(
                List::Cons(&Located { region: head.region, value: p }, &rest),
            ),
            _ => None,
        },
    }
}

/// The located pattern that a field of a record expression can be read
/// as: in the region of the field's value, or of its label if it has no
/// value, or in `backup` if the field is malformed.
pub open spec fn located_pattern_of_field<'a>(
    f: AssignedField<'a, Expr<'a>>,
    backup: Region,
) -> Option<Located<Pattern<'a>>>
    decreases f,
{
    match f {
        AssignedField::RequiredValue(name, spaces, value) => match pattern_of_field(f) {
            Some(p) => Some(Located { region: value.region, value: p }),
            None => None,
        },
        AssignedField::OptionalValue(name, spaces, value) => match pattern_of_field(f) {
            Some(p) => Some(Located { region: value.region, value: p }),
            None => None,
        },
        AssignedField::LabelOnly(name) => Some(
            Located { region: name.region, value: Pattern::Identifier(name.value) },
        ),
        AssignedField::SpaceBefore(inner, spaces) => match located_pattern_of_field(*inner, backup) {
            Some(l) => Some(
                Located { region: l.region, value: Pattern::SpaceBefore(&l.value, spaces) },
            ),
            None => None,
        },
        AssignedField::SpaceAfter(inner, spaces) => match located_pattern_of_field(*inner, backup) {
            Some(l) => Some(
                Located { region: l.region, value: Pattern::SpaceAfter(&l.value, spaces) },
            ),
            None => None,
        },
        AssignedField::Malformed(text) => Some(
            Located { region: backup, value: Pattern::Malformed(text) },
        ),
    }
}

/// If the given expression would parse the same way as a valid pattern,
/// converts it; else fails with `InvalidPattern`. `(foo)`, for one, is the
/// variable `foo` as an expression and the identifier `foo` as a pattern.
pub fn expr_to_pattern<'a>(arena: &'a Arena, expr: &Expr<'a>) -> (r: Result<
    Pattern<'a>,
    SyntaxError<'a>,
>)
    ensures
        r == match pattern_of_expr(*expr) {
            Some(p) => Ok::<Pattern<'a>, SyntaxError<'a>>(p),
            None => Err(SyntaxError::InvalidPattern),
        },
    decreases *expr,
{
    match *expr {
        Expr::Var { module_name, ident } => {
            if module_name.len() == 0 {
                Ok(Pattern::Identifier(ident))
            } else {
                Ok(Pattern::QualifiedIdentifier { module_name, ident })
            }
        },
        Expr::GlobalTag(name) => Ok(Pattern::GlobalTag(name)),
        Expr::PrivateTag(name) => Ok(Pattern::PrivateTag(name)),
        Expr::Apply(f, args, _) => {
            let tag = match expr_to_pattern(arena, &f.value) {
                Ok(p) => p,
                Err(e) => {
                    return Err(e);
                },
            };
            let arg_patterns = match exprs_to_patterns(arena, args) {
                Ok(list) => list,
                Err(e) => {
                    return Err(e);
                },
            };
            Ok(Pattern::Apply(alloc_in(arena, Located { region: f.region, value: tag }), arg_patterns))
        },
        Expr::SpaceBefore(inner, spaces) => match expr_to_pattern(arena, inner) {
            Ok(p) => Ok(Pattern::SpaceBefore(alloc_in(arena, p), spaces)),
            Err(e) => Err(e),
        },
        Expr::SpaceAfter(inner, spaces) => match expr_to_pattern(arena, inner) {
            Ok(p) => Ok(Pattern::SpaceAfter(alloc_in(arena, p), spaces)),
            Err(e) => Err(e),
        },
        Expr::ParensAround(inner) => expr_to_pattern(arena, inner),
        Expr::Nested(inner) => expr_to_pattern(arena, inner),
        Expr::Record { update, fields, final_comments } => match update {
            None => match fields_to_patterns(arena, fields) {
                Ok(patterns) => Ok(Pattern::RecordDestructure(patterns)),
                Err(e) => Err(e),
            },
            Some(_) => Err(SyntaxError::InvalidPattern),
        },
        Expr::Float(text) => Ok(Pattern::FloatLiteral(text)),
        Expr::Num(text) => Ok(Pattern::NumLiteral(text)),
        Expr::NonBase10Int { string, base, is_negative } => Ok(
            Pattern::NonBase10Literal { string, base, is_negative },
        ),
        Expr::Str(text) => Ok(Pattern::StrLiteral(text)),
        Expr::MalformedIdent(_) => Err(SyntaxError::InvalidPattern),
        // These would not have parsed as patterns.
        Expr::AccessorFunction(_) => Err(SyntaxError::InvalidPattern),
        Expr::Access(_, _) => Err(SyntaxError::InvalidPattern),
        Expr::List { .. } => Err(SyntaxError::InvalidPattern),
        Expr::Closure(_, _) => Err(SyntaxError::InvalidPattern),
        Expr::BinOp(_) => Err(SyntaxError::InvalidPattern),
        Expr::Defs(_, _) => Err(SyntaxError::InvalidPattern),
        Expr::If(_, _) => Err(SyntaxError::InvalidPattern),
        Expr::When(_, _) => Err(SyntaxError::InvalidPattern),
        Expr::MalformedClosure => Err(SyntaxError::InvalidPattern),
        Expr::PrecedenceConflict(_, _, _) => Err(SyntaxError::InvalidPattern),
        Expr::UnaryOp(_, _) => Err(SyntaxError::InvalidPattern),
    }
}

/// Converts every expression of a list, keeping the regions.
pub fn exprs_to_patterns<'a>(arena: &'a Arena, list: List<'a, Located<Expr<'a>>>) -> (r: Result<
    List<'a, Located<Pattern<'a>>>,
    SyntaxError<'a>,
>)
    ensures
        r == match patterns_of_exprs(list) {
            Some(p) => Ok::<List<'a, Located<Pattern<'a>>>, SyntaxError<'a>>(p),
            None => Err(SyntaxError::InvalidPattern),
        },
    decreases list,
{
    match list {
        List::Nil => Ok(List::Nil),
        List::Cons(head, tail) => {
            let p = match expr_to_pattern(arena, &head.value) {
                Ok(p) => p,
                Err(e) => {
                    return Err(e);
                },
            };
            let rest = match exprs_to_patterns(arena, *tail) {
                Ok(rest) => rest,
                Err(e) => {
                    return Err(e);
                },
            };
            Ok(
                List::Cons(
                    alloc_in(arena, Located { region: head.region, value: p }),
                    alloc_in(arena, rest),
                ),
            )
        },
    }
}

/// Converts every field of a record expression, keeping the regions.
pub fn fields_to_patterns<'a>(
    arena: &'a Arena,
    list: List<'a, Located<AssignedField<'a, Expr<'a>>>>,
) -> (r: Result<List<'a, Located<Pattern<'a>>>, SyntaxError<'a>>)
    ensures
        r == match patterns_of_fields(list) {
            Some(p) => Ok::<List<'a, Located<Pattern<'a>>>, SyntaxError<'a>>(p),
            None => Err(SyntaxError::InvalidPattern),
        },
    decreases list,
{
    match list {
        List::Nil => Ok(List::Nil),
        List::Cons(head, tail) => {
            let p = match assigned_expr_field_to_pattern(arena, &head.value) {
                Ok(p) => p,
                Err(e) => {
                    return Err(e);
                },
            };
            let rest = match fields_to_patterns(arena, *tail) {
                Ok(rest) => rest,
                Err(e) => {
                    return Err(e);
                },
            };
            Ok(
                List::Cons(
                    alloc_in(arena, Located { region: head.region, value: p }),
                    alloc_in(arena, rest),
                ),
            )
        },
    }
}

/// Converts a field of a record expression, as in `{ x: a + b }`, into the
/// pattern it stands for in a destructure.
pub fn assigned_expr_field_to_pattern<'a>(
    arena: &'a Arena,
    assigned_field: &AssignedField<'a, Expr<'a>>,
) -> (r: Result<Pattern<'a>, SyntaxError<'a>>)
    ensures
        r == match pattern_of_field(*assigned_field) {
            Some(p) => Ok::<Pattern<'a>, SyntaxError<'a>>(p),
            None => Err(SyntaxError::InvalidPattern),
        },
    decreases *assigned_field,
{
    // The assigned fields always store spaces, but this slice is often empty.
    match *assigned_field {
        AssignedField::RequiredValue(name, spaces, value) => {
            let pattern = match expr_to_pattern(arena, &value.value) {
                Ok(p) => p,
                Err(e) => {
                    return Err(e);
                },
            };
            let result = alloc_in(arena, Located { region: value.region, value: pattern });
            if spaces.len() == 0 {
                Ok(Pattern::RequiredField(name.value, result))
            } else {
                Ok(
                    Pattern::SpaceAfter(
                        alloc_in(arena, Pattern::RequiredField(name.value, result)),
                        spaces,
                    ),
                )
            }
        },
        AssignedField::OptionalValue(name, spaces, value) => {
            if spaces.len() == 0 {
                Ok(Pattern::OptionalField(name.value, value))
            } else {
                Ok(
                    Pattern::SpaceAfter(
                        alloc_in(arena, Pattern::OptionalField(name.value, value)),
                        spaces,
                    ),
                )
            }
        },
        AssignedField::LabelOnly(name) => Ok(Pattern::Identifier(name.value)),
        AssignedField::SpaceBefore(nested, spaces) => match assigned_expr_field_to_pattern(
            arena,
            nested,
        ) {
            Ok(p) => Ok(Pattern::SpaceBefore(alloc_in(arena, p), spaces)),
            Err(e) => Err(e),
        },
        AssignedField::SpaceAfter(nested, spaces) => match assigned_expr_field_to_pattern(
            arena,
            nested,
        ) {
            Ok(p) => Ok(Pattern::SpaceAfter(alloc_in(arena, p), spaces)),
            Err(e) => Err(e),
        },
        AssignedField::Malformed(text) => Ok(Pattern::Malformed(text)),
    }
}

/// Converts a field into a located pattern, as for `{ x: Just _ }`: the
/// pattern of `assigned_expr_field_to_pattern`, in the region of the
/// field's value, or of its label if it has no value, or in
/// `backup_region` if the field is malformed.
pub fn assigned_pattern_field_to_pattern<'a>(
    arena: &'a Arena,
    assigned_field: &AssignedField<'a, Expr<'a>>,
    backup_region: Region,
) -> (r: Result<Located<Pattern<'a>>, SyntaxError<'a>>)
    ensures
        r == match located_pattern_of_field(*assigned_field, backup_region) {
            Some(p) => Ok::<Located<Pattern<'a>>, SyntaxError<'a>>(p),
            None => Err(SyntaxError::InvalidPattern),
        },
    decreases *assigned_field,
{
    match *assigned_field {
        AssignedField::RequiredValue(name, spaces, value) => {
            match assigned_expr_field_to_pattern(arena, assigned_field) {
                Ok(p) => Ok(Located::at(Region::span_across(&value.region, &value.region), p)),
                Err(e) => Err(e),
            }
        },
        AssignedField::OptionalValue(name, spaces, value) => {
            match assigned_expr_field_to_pattern(arena, assigned_field) {
                Ok(p) => Ok(Located::at(Region::span_across(&value.region, &value.region), p)),
                Err(e) => Err(e),
            }
        },
        AssignedField::LabelOnly(name) => Ok(Located::at(name.region, Pattern::Identifier(name.value))),
        AssignedField::SpaceBefore(nested, spaces) => {
            match assigned_pattern_field_to_pattern(arena, nested, backup_region) {
                Ok(can_nested) => Ok(
                    Located::at(
                        can_nested.region,
                        Pattern::SpaceBefore(alloc_in(arena, can_nested.value), spaces),
                    ),
                ),
                Err(e) => Err(e),
            }
        },
        AssignedField::SpaceAfter(nested, spaces) => {
            match assigned_pattern_field_to_pattern(arena, nested, backup_region) {
                Ok(can_nested) => Ok(
                    Located::at(
                        can_nested.region,
                        Pattern::SpaceAfter(alloc_in(arena, can_nested.value), spaces),
                    ),
                ),
                Err(e) => Err(e),
            }
        },
        AssignedField::Malformed(text) => Ok(Located::at(backup_region, Pattern::Malformed(text))),
    }
}

// ---- a converted tree lies inside the regions that it lay inside before ----

/// The pattern of an expression lies inside every region that the
/// expression lies inside.
pub proof fn lemma_pattern_of_expr_in(e: Expr, r: Region)
    requires
        expr_in(e, r),
        pattern_of_expr(e) is Some,
    ensures
        pattern_in(pattern_of_expr(e)->0, r),
    decreases e,
{
    match e {
        Expr::Apply(f, args, _) => {
            lemma_pattern_of_expr_in(f.value, f.region);
            lemma_patterns_of_exprs_in(args, r);
        },
        Expr::SpaceBefore(inner, _) => {
            lemma_pattern_of_expr_in(*inner, r);
        },
        Expr::SpaceAfter(inner, _) => {
            lemma_pattern_of_expr_in(*inner, r);
        },
        Expr::ParensAround(inner) => {
            lemma_pattern_of_expr_in(*inner, r);
        },
        Expr::Nested(inner) => {
            lemma_pattern_of_expr_in(*inner, r);
        },
        Expr::Record { update, fields, final_comments } => {
            lemma_patterns_of_fields_in(fields, r);
        },
        _ => {},
    }
}

pub proof fn lemma_patterns_of_exprs_in(list: List<Located<Expr>>, r: Region)
    requires
        loc_exprs_in(list, r),
        patterns_of_exprs(list) is Some,
    ensures
        loc_patterns_in(patterns_of_exprs(list)->0, r),
    decreases list,
{
    match list {
        List::Nil => {},
        List::Cons(head, tail) => {
            lemma_pattern_of_expr_in(head.value, head.region);
            lemma_patterns_of_exprs_in(*tail, r);
        },
    }
}

pub proof fn lemma_pattern_of_field_in(f: AssignedField<Expr>, r: Region)
    requires
        expr_field_in(f, r),
        pattern_of_field(f) is Some,
    ensures
        pattern_in(pattern_of_field(f)->0, r),
    decreases f,
{
    match f {
        AssignedField::RequiredValue(name, spaces, value) => {
            lemma_pattern_of_expr_in(value.value, value.region);
            let p = pattern_of_expr(value.value)->0;
            let field = Pattern::RequiredField(
                name.value,
                &Located { region: value.region, value: p },
            );
            assert(pattern_in(field, r));
        },
        AssignedField::OptionalValue(name, spaces, value) => {
            let field = Pattern::OptionalField(name.value, value);
            assert(pattern_in(field, r));
        },
        AssignedField::SpaceBefore(inner, _) => {
            lemma_pattern_of_field_in(*inner, r);
        },
        AssignedField::SpaceAfter(inner, _) => {
            lemma_pattern_of_field_in(*inner, r);
        },
        _ => {},
    }
}

pub proof fn lemma_patterns_of_fields_in(list: List<Located<AssignedField<Expr>>>, r: Region)
    requires
        loc_expr_fields_in(list, r),
        patterns_of_fields(list) is Some,
    ensures
        loc_patterns_in(patterns_of_fields(list)->0, r),
    decreases list,
{
    match list {
        List::Nil => {},
        List::Cons(head, tail) => {
            lemma_pattern_of_field_in(head.value, head.region);
            lemma_patterns_of_fields_in(*tail, r);
        },
    }
}

// ---- identifiers as expressions and as patterns ----

/// `base` with the fields of `fields` read from it one after the other:
/// `a.b.c` is `(a.b).c`.
pub open spec fn access_chain<'a>(base: Expr<'a>, fields: List<'a, &'a [u8]>) -> Expr<'a>
    decreases fields,
{
    match fields {
        List::Nil => base,
        List::Cons(field, rest) => access_chain(Expr::Access(&base, *field), *rest),
    }
}

/// The expression that an identifier is.
pub open spec fn expr_of_ident<'a>(src: Ident<'a>) -> Expr<'a> {
    match src {
        Ident::GlobalTag(name) => Expr::GlobalTag(name),
        Ident::PrivateTag(name) => Expr::PrivateTag(name),
        Ident::Access { module_name, parts } => match parts {
            List::Cons(first, rest) => access_chain(
                Expr::Var { module_name, ident: *first },
                *rest,
            ),
            List::Nil => Expr::MalformedIdent(module_name),
        },
        Ident::AccessorFunction(name) => Expr::AccessorFunction(name),
        Ident::Malformed(text) => Expr::MalformedIdent(text),
    }
}

/// The pattern that an identifier is, `raw` being the text it was read
/// from. A variable with fields read from it, and an accessor function,
/// are no patterns.
pub open spec fn pattern_of_ident<'a>(src: Ident<'a>, raw: &'a [u8]) -> Pattern<'a> {
    match src {
        Ident::GlobalTag(name) => Pattern::GlobalTag(name),
        Ident::PrivateTag(name) => Pattern::PrivateTag(name),
        Ident::Access { module_name, parts } => match parts {
            List::Cons(first, rest) => if *rest is Nil {
                if module_name@.len() == 0 {
                    Pattern::Identifier(*first)
                } else {
                    Pattern::QualifiedIdentifier { module_name, ident: *first }
                }
            } else {
                Pattern::Malformed(raw)
            },
            List::Nil => Pattern::Malformed(raw),
        },
        Ident::AccessorFunction(_) => Pattern::Malformed(raw),
        Ident::Malformed(text) => Pattern::Malformed(text),
    }
}

/// Wraps `base` in one field access for each of `fields`.
pub fn wrap_accesses<'a>(arena: &'a Arena, base: Expr<'a>, fields: List<'a, &'a [u8]>) -> (r: Expr<
    'a,
>)
    ensures
        r == access_chain(base, fields),
    decreases fields,
{
    match fields {
        List::Nil => base,
        List::Cons(field, rest) => wrap_accesses(
            arena,
            Expr::Access(alloc_in(arena, base), *field),
            *rest,
        ),
    }
}

/// An access chain lies inside every region that its base lies inside.
pub proof fn lemma_access_chain_in(base: Expr, fields: List<&[u8]>, r: Region)
    requires
        expr_in(base, r),
    ensures
        expr_in(access_chain(base, fields), r),
    decreases fields,
{
    match fields {
        List::Nil => {},
        List::Cons(field, rest) => {
            assert(expr_in(Expr::Access(&base, *field), r));
            lemma_access_chain_in(Expr::Access(&base, *field), *rest, r);
        },
    }
}

/// The expression that an identifier is: a tag, an accessor function, or a
/// variable, with the fields that are read from it wrapped around it so
/// that `foo.bar.baz` is `(foo.bar).baz`.
pub fn ident_to_expr<'a>(arena: &'a Arena, src: Ident<'a>) -> (r: Expr<'a>)
    requires
        crate::ident::ident_ok(src),
    ensures
        r == expr_of_ident(src),
        forall|region: Region| expr_in(r, region),
{
    proof {
        assert forall|region: Region| expr_in(expr_of_ident(src), region) by {
            match src {
                Ident::Access { module_name, parts } => match parts {
                    List::Cons(first, rest) => {
                        lemma_access_chain_in(
                            Expr::Var { module_name, ident: *first },
                            *rest,
                            region,
                        );
                    },
                    List::Nil => {},
                },
                _ => {},
            }
        }
    }
    match src {
        Ident::GlobalTag(name) => Expr::GlobalTag(name),
        Ident::PrivateTag(name) => Expr::PrivateTag(name),
        Ident::Access { module_name, parts } => match parts {
            // The first part is the variable, as `foo` in `foo.bar.baz`;
            // the others are the fields read from it.
            List::Cons(first, rest) => wrap_accesses(
                arena,
                Expr::Var { module_name, ident: *first },
                *rest,
            ),
            List::Nil => Expr::MalformedIdent(module_name),
        },
        Ident::AccessorFunction(name) => Expr::AccessorFunction(name),
        Ident::Malformed(text) => Expr::MalformedIdent(text),
    }
}

/// The pattern that an identifier is, `raw` being the text it was read
/// from.
pub fn pattern_from_ident<'a>(src: Ident<'a>, raw: &'a [u8]) -> (r: Pattern<'a>)
    ensures
        r == pattern_of_ident(src, raw),
        forall|region: Region| pattern_in(r, region),
{
    match src {
        Ident::GlobalTag(name) => Pattern::GlobalTag(name),
        Ident::PrivateTag(name) => Pattern::PrivateTag(name),
        Ident::Access { module_name, parts } => match parts {
            List::Cons(first, rest) => {
                if rest.is_empty() {
                    if module_name.len() == 0 {
                        Pattern::Identifier(*first)
                    } else {
                        Pattern::QualifiedIdentifier { module_name, ident: *first }
                    }
                } else {
                    Pattern::Malformed(raw)
                }
            },
            List::Nil => Pattern::Malformed(raw),
        },
        Ident::AccessorFunction(_) => Pattern::Malformed(raw),
        Ident::Malformed(text) => Pattern::Malformed(text),
    }
}

/// Reading as an expression and converting undoes nothing: a tag and a
/// variable without fields give the same pattern whether they are read as
/// a pattern at once, or read as an expression first and converted
/// afterwards.
pub proof fn lemma_ident_reads_alike<'a>(src: Ident<'a>, raw: &'a [u8])
    requires
        crate::ident::ident_ok(src),
        !(src is AccessorFunction),
        !(src is Malformed),
        src matches Ident::Access { module_name, parts } ==> parts@.len() == 1,
    ensures
        pattern_of_expr(expr_of_ident(src)) == Some(pattern_of_ident(src, raw)),
{
    match src {
        Ident::Access { module_name, parts } => match parts {
            List::Cons(first, rest) => {
                assert(rest@.len() == 0) by {
                    assert(parts@ == seq![*first].add(rest@));
                }
                assert(*rest is Nil) by {
                    match *rest {
                        List::Nil => {},
                        List::Cons(h, t) => {
                            assert(rest@ == seq![*h].add(t@));
                        },
                    }
                }
            },
            List::Nil => {},
        },
        _ => {},
    }
}

/// A number literal reads alike either way: where a number stands at the
/// cursor, reading it as an expression and converting gives the pattern
/// that reading it as a pattern gives, with the same cursor after it; where
/// none stands, both readings fail.
pub proof fn lemma_number_reads_alike<'a>(state: State<'a>)
    ensures
        match (
            crate::expr::number_literal_expr_at(state),
            crate::pattern::number_pattern_at(state),
        ) {
            (Ok((_, e, s1)), Some((p, s2))) => s1 == s2 && pattern_of_expr(e) == Some(p),
            (Err(_), None) => true,
            _ => false,
        },
{
    reveal(crate::literal::number_value);
}

/// A string literal reads alike either way: where one stands at the
/// cursor, reading it as an expression and converting gives the pattern
/// that reading it as a pattern gives, with the same cursor after it; where
/// the one reading fails, the other does.
pub proof fn lemma_string_reads_alike<'a>(state: State<'a>)
    ensures
        match (
            crate::expr::string_literal_expr_at(state),
            crate::pattern::string_pattern_at(state),
        ) {
            (Ok((_, e, s1)), Ok((_, p, s2))) => s1 == s2 && pattern_of_expr(e) == Some(p),
            (Err((p1, _, s1)), Err((p2, _, s2))) => p1 == p2 && s1 == s2,
            _ => false,
        },
{
}

/// An identifier without fields reads alike either way: where a tag or a
/// variable stands at the cursor, reading it as an expression and
/// converting gives the pattern that reading it as a pattern without
/// arguments gives, in the same region and with the same cursor after it.
pub proof fn lemma_identifier_reads_alike<'a>(min_indent: u16, state: State<'a>)
    requires
        crate::ident::ident_value(state) matches Some((id, _)) && !(id is AccessorFunction)
            && !(id is Malformed) && (id matches Ident::Access { module_name, parts }
            ==> parts@.len() == 1),
    ensures
        crate::expr::ident_without_apply_at(state) matches Ok((_, e, s1))
            && crate::pattern::loc_ident_pattern_at(min_indent, false, state) matches Ok(
            (_, p, s2),
        ) && s1 == s2 && pattern_of_expr(e) == Some(p.value) && p.region == s1.span_from(state),
{
    reveal(crate::pattern::loc_ident_pattern_at);
    let (id, s) = crate::ident::ident_value(state)->0;
    lemma_ident_reads_alike(id, s.text(state.offset as int, s.offset as int));
}

} // verus!
