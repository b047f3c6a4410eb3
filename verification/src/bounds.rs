//! What it means for a syntax tree to be in order with respect to source
//! regions: every located node has a valid region, and the region of a node
//! encloses the regions of all the located nodes below it.

use vstd::prelude::*;
use crate::arena::List;
use crate::ast::{AssignedField, Def, Expr, Pattern, TypeAnnotation, WhenBranch};
use crate::region::{Located, Region};

verus! {

/// `region` is valid and lies inside `r`.
pub open spec fn inside(r: Region, region: Region) -> bool {
    r.encloses(region) && region.valid()
}

/// A located piece of text lies inside `r`.
pub open spec fn label_in(l: Located<&[u8]>, r: Region) -> bool {
    inside(r, l.region)
}

// ---- types ----

/// Every located node below `t` lies inside `r`, and what is below each of
/// them lies, in the same way, inside its own region.
pub open spec fn type_in(t: TypeAnnotation, r: Region) -> bool
    decreases t,
{
    match t {
        TypeAnnotation::Function(args, ret) => loc_types_in(args, r) && inside(r, ret.region) && type_in(ret.value, ret.region),
        TypeAnnotation::Apply(_, _, args) => loc_types_in(args, r),
        TypeAnnotation::BoundVariable(_) => true,
        TypeAnnotation::Record { fields, final_comments } => loc_type_fields_in(fields, r),
        TypeAnnotation::Wildcard => true,
        TypeAnnotation::SpaceBefore(inner, _) => type_in(*inner, r),
        TypeAnnotation::SpaceAfter(inner, _) => type_in(*inner, r),
        TypeAnnotation::Malformed(_) => true,
    }
}

pub open spec fn loc_types_in(list: List<Located<TypeAnnotation>>, r: Region) -> bool
    decreases list,
{
    match list {
        List::Nil => true,
        List::Cons(head, tail) => inside(r, head.region) && type_in(head.value, head.region) && loc_types_in(*tail, r),
    }
}

pub open spec fn type_field_in(f: AssignedField<TypeAnnotation>, r: Region) -> bool
    decreases f,
{
    match f {
        AssignedField::RequiredValue(label, _, value) => label_in(label, r) && inside(r, value.region) && type_in(value.value, value.region),
        AssignedField::OptionalValue(label, _, value) => label_in(label, r) && inside(r, value.region) && type_in(value.value, value.region),
        AssignedField::LabelOnly(label) => label_in(label, r),
        AssignedField::SpaceBefore(inner, _) => type_field_in(*inner, r),
        AssignedField::SpaceAfter(inner, _) => type_field_in(*inner, r),
        AssignedField::Malformed(_) => true,
    }
}

pub open spec fn loc_type_fields_in(list: List<Located<AssignedField<TypeAnnotation>>>, r: Region) -> bool
    decreases list,
{
    match list {
        List::Nil => true,
        List::Cons(head, tail) => inside(r, head.region) && type_field_in(head.value, head.region) && loc_type_fields_in(*tail, r),
    }
}

/// `l` lies inside `r`, its region is valid, and what is below it lies in
/// order inside its own region.
pub open spec fn loc_type_in(l: Located<TypeAnnotation>, r: Region) -> bool {
    inside(r, l.region) && type_in(l.value, l.region)
}

pub open spec fn loc_type_field_in(l: Located<AssignedField<TypeAnnotation>>, r: Region) -> bool {
    inside(r, l.region) && type_field_in(l.value, l.region)
}

// ---- expressions, patterns and definitions ----

/// Every located node below `e` lies inside `r`, and what is below each of
/// them lies, in the same way, inside its own region.
pub open spec fn expr_in(e: Expr, r: Region) -> bool
    decreases e,
{
    match e {
        Expr::Float(_) => true,
        Expr::Num(_) => true,
        Expr::NonBase10Int { .. } => true,
        Expr::Str(_) => true,
        Expr::Access(inner, _) => expr_in(*inner, r),
        Expr::AccessorFunction(_) => true,
        Expr::List { items, final_comments } => loc_exprs_in(items, r),
        Expr::Record { update, fields, final_comments } => (match update {
            Some(u) => inside(r, u.region) && expr_in(u.value, u.region),
            None => true,
        }) && loc_expr_fields_in(fields, r),
        Expr::Var { .. } => true,
        Expr::GlobalTag(_) => true,
        Expr::PrivateTag(_) => true,
        Expr::Closure(params, body) => loc_patterns_in(params, r) && inside(r, body.region) && expr_in(body.value, body.region),
        Expr::Defs(defs, ret) => loc_defs_in(defs, r) && inside(r, ret.region) && expr_in(ret.value, ret.region),
        Expr::Apply(f, args, _) => inside(r, f.region) && expr_in(f.value, f.region) && loc_exprs_in(args, r),
        Expr::BinOp(parts) => inside(r, parts.0.region) && expr_in(parts.0.value, parts.0.region) && inside(r, parts.1.region) && inside(r, parts.2.region) && expr_in(parts.2.value, parts.2.region),
        Expr::UnaryOp(operand, op) => inside(r, operand.region) && expr_in(operand.value, operand.region) && inside(r, op.region),
        Expr::If(branches, otherwise) => if_branches_in(branches, r) && inside(r, otherwise.region) && expr_in(otherwise.value, otherwise.region),
        Expr::When(condition, branches) => inside(r, condition.region) && expr_in(condition.value, condition.region) && when_branches_in(branches, r),
        Expr::SpaceBefore(inner, _) => expr_in(*inner, r),
        Expr::SpaceAfter(inner, _) => expr_in(*inner, r),
        Expr::ParensAround(inner) => expr_in(*inner, r),
        Expr::Nested(inner) => expr_in(*inner, r),
        Expr::MalformedIdent(_) => true,
        Expr::MalformedClosure => true,
        Expr::PrecedenceConflict(_, _, inner) => inside(r, inner.region) && expr_in(inner.value, inner.region),
    }
}

pub open spec fn loc_exprs_in(list: List<Located<Expr>>, r: Region) -> bool
    decreases list,
{
    match list {
        List::Nil => true,
        List::Cons(head, tail) => inside(r, head.region) && expr_in(head.value, head.region) && loc_exprs_in(*tail, r),
    }
}

pub open spec fn expr_field_in(f: AssignedField<Expr>, r: Region) -> bool
    decreases f,
{
    match f {
        AssignedField::RequiredValue(label, _, value) => label_in(label, r) && inside(r, value.region) && expr_in(value.value, value.region),
        AssignedField::OptionalValue(label, _, value) => label_in(label, r) && inside(r, value.region) && expr_in(value.value, value.region),
        AssignedField::LabelOnly(label) => label_in(label, r),
        AssignedField::SpaceBefore(inner, _) => expr_field_in(*inner, r),
        AssignedField::SpaceAfter(inner, _) => expr_field_in(*inner, r),
        AssignedField::Malformed(_) => true,
    }
}

pub open spec fn loc_expr_fields_in(list: List<Located<AssignedField<Expr>>>, r: Region) -> bool
    decreases list,
{
    match list {
        List::Nil => true,
        List::Cons(head, tail) => inside(r, head.region) && expr_field_in(head.value, head.region) && loc_expr_fields_in(*tail, r),
    }
}

pub open spec fn if_branches_in(list: List<(Located<Expr>, Located<Expr>)>, r: Region) -> bool
    decreases list,
{
    match list {
        List::Nil => true,
        List::Cons(head, tail) => inside(r, head.0.region) && expr_in(head.0.value, head.0.region) && inside(r, head.1.region) && expr_in(head.1.value, head.1.region) && if_branches_in(*tail, r),
    }
}

pub open spec fn when_branches_in(list: List<WhenBranch>, r: Region) -> bool
    decreases list,
{
    match list {
        List::Nil => true,
        List::Cons(head, tail) => loc_patterns_in(head.patterns, r) && inside(r, head.value.region) && expr_in(head.value.value, head.value.region) && (match head.guard {
            Some(g) => inside(r, g.region) && expr_in(g.value, g.region),
            None => true,
        }) && when_branches_in(*tail, r),
    }
}

/// Every located node below `p` lies inside `r`, and what is below each of
/// them lies, in the same way, inside its own region.
pub open spec fn pattern_in(p: Pattern, r: Region) -> bool
    decreases p,
{
    match p {
        Pattern::Identifier(_) => true,
        Pattern::GlobalTag(_) => true,
        Pattern::PrivateTag(_) => true,
        Pattern::Apply(tag, args) => inside(r, tag.region) && pattern_in(tag.value, tag.region) && loc_patterns_in(args, r),
        Pattern::RecordDestructure(fields) => loc_patterns_in(fields, r),
        Pattern::RequiredField(_, inner) => inside(r, inner.region) && pattern_in(inner.value, inner.region),
        Pattern::OptionalField(_, default) => inside(r, default.region) && expr_in(default.value, default.region),
        Pattern::Nested(inner) => pattern_in(*inner, r),
        Pattern::NumLiteral(_) => true,
        Pattern::NonBase10Literal { .. } => true,
        Pattern::FloatLiteral(_) => true,
        Pattern::StrLiteral(_) => true,
        Pattern::Underscore(_) => true,
        Pattern::SpaceBefore(inner, _) => pattern_in(*inner, r),
        Pattern::SpaceAfter(inner, _) => pattern_in(*inner, r),
        Pattern::Malformed(_) => true,
        Pattern::QualifiedIdentifier { .. } => true,
    }
}

pub open spec fn loc_patterns_in(list: List<Located<Pattern>>, r: Region) -> bool
    decreases list,
{
    match list {
        List::Nil => true,
        List::Cons(head, tail) => inside(r, head.region) && pattern_in(head.value, head.region) && loc_patterns_in(*tail, r),
    }
}

/// Every located node below `d` lies inside `r`, and what is below each of
/// them lies, in the same way, inside its own region.
pub open spec fn def_in(d: Def, r: Region) -> bool
    decreases d,
{
    match d {
        Def::Annotation(pattern, ann) => inside(r, pattern.region) && pattern_in(pattern.value, pattern.region) && loc_type_in(ann, r),
        Def::Alias { name, vars, ann } => label_in(name, r) && loc_patterns_in(vars, r)
            && loc_type_in(ann, r),
        Def::Body(pattern, body) => inside(r, pattern.region) && pattern_in(pattern.value, pattern.region) && inside(r, body.region) && expr_in(body.value, body.region),
        Def::AnnotatedBody { ann_pattern, ann_type, comment, body_pattern, body_expr } => {
            &&& inside(r, ann_pattern.region) && pattern_in(ann_pattern.value, ann_pattern.region)
            &&& loc_type_in(*ann_type, r)
            &&& inside(r, body_pattern.region) && pattern_in(body_pattern.value, body_pattern.region)
            &&& inside(r, body_expr.region) && expr_in(body_expr.value, body_expr.region)
        },
        Def::SpaceBefore(inner, _) => def_in(*inner, r),
        Def::SpaceAfter(inner, _) => def_in(*inner, r),
        Def::NotYetImplemented(_) => true,
    }
}

pub open spec fn loc_defs_in(list: List<Located<Def>>, r: Region) -> bool
    decreases list,
{
    match list {
        List::Nil => true,
        List::Cons(head, tail) => inside(r, head.region) && def_in(head.value, head.region) && loc_defs_in(*tail, r),
    }
}

/// `l` lies inside `r`, its region is valid, and what is below it lies in
/// order inside its own region.
pub open spec fn loc_expr_in(l: Located<Expr>, r: Region) -> bool {
    inside(r, l.region) && expr_in(l.value, l.region)
}

pub open spec fn loc_pattern_in(l: Located<Pattern>, r: Region) -> bool {
    inside(r, l.region) && pattern_in(l.value, l.region)
}

pub open spec fn loc_def_in(l: Located<Def>, r: Region) -> bool {
    inside(r, l.region) && def_in(l.value, l.region)
}

pub open spec fn loc_expr_field_in(l: Located<AssignedField<Expr>>, r: Region) -> bool {
    inside(r, l.region) && expr_field_in(l.value, l.region)
}

pub open spec fn when_branch_in(b: WhenBranch, r: Region) -> bool {
    loc_patterns_in(b.patterns, r) && loc_expr_in(b.value, r) && (match b.guard {
        Some(g) => loc_expr_in(g, r),
        None => true,
    })
}

// ---- a tree that lies inside a region lies inside every wider one ----

pub proof fn lemma_loc_types_widen(list: List<Located<TypeAnnotation>>, r1: Region, r2: Region)
    requires
        loc_types_in(list, r1),
        r2.encloses(r1),
    ensures
        loc_types_in(list, r2),
    decreases list,
{
    match list {
        List::Nil => {},
        List::Cons(_, tail) => {
            lemma_loc_types_widen(*tail, r1, r2);
        },
    }
}

pub proof fn lemma_loc_type_fields_widen(list: List<Located<AssignedField<TypeAnnotation>>>, r1: Region, r2: Region)
    requires
        loc_type_fields_in(list, r1),
        r2.encloses(r1),
    ensures
        loc_type_fields_in(list, r2),
    decreases list,
{
    match list {
        List::Nil => {},
        List::Cons(_, tail) => {
            lemma_loc_type_fields_widen(*tail, r1, r2);
        },
    }
}

pub proof fn lemma_loc_exprs_widen(list: List<Located<Expr>>, r1: Region, r2: Region)
    requires
        loc_exprs_in(list, r1),
        r2.encloses(r1),
    ensures
        loc_exprs_in(list, r2),
    decreases list,
{
    match list {
        List::Nil => {},
        List::Cons(_, tail) => {
            lemma_loc_exprs_widen(*tail, r1, r2);
        },
    }
}

pub proof fn lemma_loc_expr_fields_widen(list: List<Located<AssignedField<Expr>>>, r1: Region, r2: Region)
    requires
        loc_expr_fields_in(list, r1),
        r2.encloses(r1),
    ensures
        loc_expr_fields_in(list, r2),
    decreases list,
{
    match list {
        List::Nil => {},
        List::Cons(_, tail) => {
            lemma_loc_expr_fields_widen(*tail, r1, r2);
        },
    }
}

pub proof fn lemma_if_branches_widen(list: List<(Located<Expr>, Located<Expr>)>, r1: Region, r2: Region)
    requires
        if_branches_in(list, r1),
        r2.encloses(r1),
    ensures
        if_branches_in(list, r2),
    decreases list,
{
    match list {
        List::Nil => {},
        List::Cons(_, tail) => {
            lemma_if_branches_widen(*tail, r1, r2);
        },
    }
}

pub proof fn lemma_loc_patterns_widen(list: List<Located<Pattern>>, r1: Region, r2: Region)
    requires
        loc_patterns_in(list, r1),
        r2.encloses(r1),
    ensures
        loc_patterns_in(list, r2),
    decreases list,
{
    match list {
        List::Nil => {},
        List::Cons(_, tail) => {
            lemma_loc_patterns_widen(*tail, r1, r2);
        },
    }
}

pub proof fn lemma_loc_defs_widen(list: List<Located<Def>>, r1: Region, r2: Region)
    requires
        loc_defs_in(list, r1),
        r2.encloses(r1),
    ensures
        loc_defs_in(list, r2),
    decreases list,
{
    match list {
        List::Nil => {},
        List::Cons(_, tail) => {
            lemma_loc_defs_widen(*tail, r1, r2);
        },
    }
}

pub proof fn lemma_when_branches_widen(list: List<WhenBranch>, r1: Region, r2: Region)
    requires
        when_branches_in(list, r1),
        r2.encloses(r1),
    ensures
        when_branches_in(list, r2),
    decreases list,
{
    match list {
        List::Nil => {},
        List::Cons(head, tail) => {
            lemma_loc_patterns_widen(head.patterns, r1, r2);
            lemma_when_branches_widen(*tail, r1, r2);
        },
    }
}

pub proof fn lemma_type_widen(t: TypeAnnotation, r1: Region, r2: Region)
    requires
        type_in(t, r1),
        r2.encloses(r1),
    ensures
        type_in(t, r2),
    decreases t,
{
    match t {
        TypeAnnotation::Function(args, _) => {
            lemma_loc_types_widen(args, r1, r2);
        },
        TypeAnnotation::Apply(_, _, args) => {
            lemma_loc_types_widen(args, r1, r2);
        },
        TypeAnnotation::Record { fields, final_comments } => {
            lemma_loc_type_fields_widen(fields, r1, r2);
        },
        TypeAnnotation::SpaceBefore(inner, _) => {
            lemma_type_widen(*inner, r1, r2);
        },
        TypeAnnotation::SpaceAfter(inner, _) => {
            lemma_type_widen(*inner, r1, r2);
        },
        _ => {},
    }
}

pub proof fn lemma_expr_field_widen(f: AssignedField<Expr>, r1: Region, r2: Region)
    requires
        expr_field_in(f, r1),
        r2.encloses(r1),
    ensures
        expr_field_in(f, r2),
    decreases f,
{
    match f {
        AssignedField::SpaceBefore(inner, _) => {
            lemma_expr_field_widen(*inner, r1, r2);
        },
        AssignedField::SpaceAfter(inner, _) => {
            lemma_expr_field_widen(*inner, r1, r2);
        },
        _ => {},
    }
}

pub proof fn lemma_type_field_widen(f: AssignedField<TypeAnnotation>, r1: Region, r2: Region)
    requires
        type_field_in(f, r1),
        r2.encloses(r1),
    ensures
        type_field_in(f, r2),
    decreases f,
{
    match f {
        AssignedField::SpaceBefore(inner, _) => {
            lemma_type_field_widen(*inner, r1, r2);
        },
        AssignedField::SpaceAfter(inner, _) => {
            lemma_type_field_widen(*inner, r1, r2);
        },
        _ => {},
    }
}

pub proof fn lemma_pattern_widen(p: Pattern, r1: Region, r2: Region)
    requires
        pattern_in(p, r1),
        r2.encloses(r1),
    ensures
        pattern_in(p, r2),
    decreases p,
{
    match p {
        Pattern::Apply(_, args) => {
            lemma_loc_patterns_widen(args, r1, r2);
        },
        Pattern::RecordDestructure(fields) => {
            lemma_loc_patterns_widen(fields, r1, r2);
        },
        Pattern::Nested(inner) => {
            lemma_pattern_widen(*inner, r1, r2);
        },
        Pattern::SpaceBefore(inner, _) => {
            lemma_pattern_widen(*inner, r1, r2);
        },
        Pattern::SpaceAfter(inner, _) => {
            lemma_pattern_widen(*inner, r1, r2);
        },
        _ => {},
    }
}

pub proof fn lemma_def_widen(d: Def, r1: Region, r2: Region)
    requires
        def_in(d, r1),
        r2.encloses(r1),
    ensures
        def_in(d, r2),
    decreases d,
{
    match d {
        Def::Alias { name, vars, ann } => {
            lemma_loc_patterns_widen(vars, r1, r2);
        },
        Def::SpaceBefore(inner, _) => {
            lemma_def_widen(*inner, r1, r2);
        },
        Def::SpaceAfter(inner, _) => {
            lemma_def_widen(*inner, r1, r2);
        },
        _ => {},
    }
}

pub proof fn lemma_expr_widen(e: Expr, r1: Region, r2: Region)
    requires
        expr_in(e, r1),
        r2.encloses(r1),
    ensures
        expr_in(e, r2),
    decreases e,
{
    match e {
        Expr::Access(inner, _) => {
            lemma_expr_widen(*inner, r1, r2);
        },
        Expr::List { items, final_comments } => {
            lemma_loc_exprs_widen(items, r1, r2);
        },
        Expr::Record { update, fields, final_comments } => {
            lemma_loc_expr_fields_widen(fields, r1, r2);
        },
        Expr::Closure(params, _) => {
            lemma_loc_patterns_widen(params, r1, r2);
        },
        Expr::Defs(defs, _) => {
            lemma_loc_defs_widen(defs, r1, r2);
        },
        Expr::Apply(_, args, _) => {
            lemma_loc_exprs_widen(args, r1, r2);
        },
        Expr::If(branches, _) => {
            lemma_if_branches_widen(branches, r1, r2);
        },
        Expr::When(_, branches) => {
            lemma_when_branches_widen(branches, r1, r2);
        },
        Expr::SpaceBefore(inner, _) => {
            lemma_expr_widen(*inner, r1, r2);
        },
        Expr::SpaceAfter(inner, _) => {
            lemma_expr_widen(*inner, r1, r2);
        },
        Expr::ParensAround(inner) => {
            lemma_expr_widen(*inner, r1, r2);
        },
        Expr::Nested(inner) => {
            lemma_expr_widen(*inner, r1, r2);
        },
        _ => {},
    }
}

} // verus!
