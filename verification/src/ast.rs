//! The syntax tree. Every node is a small copyable value; the children of a
//! node live in the arena of the parse and are reached through shared
//! references, and all text is a sub-slice of the input.

use vstd::prelude::*;
use crate::arena::List;
use crate::region::Located;

verus! {

/// A binary operator, in its exact written form.
#[derive(Clone, Copy, Debug, PartialEq, Eq, Structural)]
pub enum BinOp {
    Caret,
    Star,
    Slash,
    DoubleSlash,
    Percent,
    DoublePercent,
    Plus,
    Minus,
    Equals,
    NotEquals,
    LessThan,
    GreaterThan,
    LessThanOrEq,
    GreaterThanOrEq,
    And,
    Or,
    Pizza,
}

#[derive(Clone, Copy, Debug, PartialEq, Eq, Structural)]
pub enum UnaryOp {
    Negate,
    Not,
}

/// How a function came to be applied.
#[derive(Clone, Copy, Debug, PartialEq, Eq, Structural)]
pub enum CalledVia {
    /// Arguments that follow the function after white space.
    Space,
    BinOp(BinOp),
    UnaryOp(UnaryOp),
}

/// The base of an integer literal that is not written in base ten.
#[derive(Clone, Copy, Debug, PartialEq, Eq, Structural)]
pub enum Base {
    Octal,
    Binary,
    Hex,
}

/// What the parser was trying to read when it was started.
#[derive(Clone, Copy, Debug, PartialEq, Eq, Structural)]
pub enum Attempting {
    Module,
    Def,
    Expression,
    Pattern,
    TypeAnnotation,
}

/// A line break or a comment, as found inside white space.
#[derive(Clone, Copy, Debug, PartialEq)]
pub enum CommentOrNewline<'a> {
    Newline,
    /// The text after `#`, without the line break.
    LineComment(&'a [u8]),
    /// The text after `##`, without the line break.
    DocComment(&'a [u8]),
}

/// One character written with a backslash inside a string.
#[derive(Clone, Copy, Debug, PartialEq, Eq, Structural)]
pub enum EscapedChar {
    Newline,
    Tab,
    Quote,
    Backslash,
    CarriageReturn,
}

/// A piece of a string literal.
#[derive(Clone, Copy, Debug, PartialEq)]
pub enum StrSegment<'a> {
    Plaintext(&'a [u8]),
    EscapedChar(EscapedChar),
}

#[derive(Clone, Copy, Debug, PartialEq)]
pub enum StrLiteral<'a> {
    /// A string without any escape.
    PlainLine(&'a [u8]),
    /// A string in pieces, some of them escapes.
    Line(List<'a, StrSegment<'a>>),
}

/// An identifier as it is read, before it is known whether it stands in an
/// expression or in a pattern.
#[derive(Clone, Copy, Debug, PartialEq)]
pub enum Ident<'a> {
    /// `Foo`
    GlobalTag(&'a [u8]),
    /// `@Foo`
    PrivateTag(&'a [u8]),
    /// `foo`, `foo.bar.baz` or `Foo.Bar.baz.qux`: the module name (empty
    /// if there is none), then the variable and the fields read from it.
    Access { module_name: &'a [u8], parts: List<'a, &'a [u8]> },
    /// `.foo`
    AccessorFunction(&'a [u8]),
    Malformed(&'a [u8]),
}

/// A field of a record, in an expression or in a type.
#[derive(Clone, Copy, Debug, PartialEq)]
pub enum AssignedField<'a, Val> {
    /// `label : value`
    RequiredValue(Located<&'a [u8]>, &'a [CommentOrNewline<'a>], &'a Located<Val>),
    /// `label ? value`
    OptionalValue(Located<&'a [u8]>, &'a [CommentOrNewline<'a>], &'a Located<Val>),
    /// `label`
    LabelOnly(Located<&'a [u8]>),
    SpaceBefore(&'a AssignedField<'a, Val>, &'a [CommentOrNewline<'a>]),
    SpaceAfter(&'a AssignedField<'a, Val>, &'a [CommentOrNewline<'a>]),
    Malformed(&'a [u8]),
}

#[derive(Clone, Copy, Debug, PartialEq)]
pub enum TypeAnnotation<'a> {
    /// `a, b -> c`
    Function(List<'a, Located<TypeAnnotation<'a>>>, &'a Located<TypeAnnotation<'a>>),
    /// `Name arg arg` or `Module.Name arg`: the module name (empty if
    /// there is none), the type's name and its arguments.
    Apply(&'a [u8], &'a [u8], List<'a, Located<TypeAnnotation<'a>>>),
    /// `a`
    BoundVariable(&'a [u8]),
    /// `{ field : Type, field : Type }`
    Record {
        fields: List<'a, Located<AssignedField<'a, TypeAnnotation<'a>>>>,
        final_comments: &'a [CommentOrNewline<'a>],
    },
    /// `*`
    Wildcard,
    SpaceBefore(&'a TypeAnnotation<'a>, &'a [CommentOrNewline<'a>]),
    SpaceAfter(&'a TypeAnnotation<'a>, &'a [CommentOrNewline<'a>]),
    Malformed(&'a [u8]),
}

#[derive(Clone, Copy, Debug, PartialEq)]
pub enum Pattern<'a> {
    Identifier(&'a [u8]),
    GlobalTag(&'a [u8]),
    PrivateTag(&'a [u8]),
    Apply(&'a Located<Pattern<'a>>, List<'a, Located<Pattern<'a>>>),
    /// `{ x, y : pattern, z ? default }`
    RecordDestructure(List<'a, Located<Pattern<'a>>>),
    /// `label : pattern`, inside a record destructure.
    RequiredField(&'a [u8], &'a Located<Pattern<'a>>),
    /// `label ? default`, inside a record destructure.
    OptionalField(&'a [u8], &'a Located<Expr<'a>>),
    Nested(&'a Pattern<'a>),
    NumLiteral(&'a [u8]),
    NonBase10Literal { string: &'a [u8], base: Base, is_negative: bool },
    FloatLiteral(&'a [u8]),
    StrLiteral(StrLiteral<'a>),
    Underscore(&'a [u8]),
    SpaceBefore(&'a Pattern<'a>, &'a [CommentOrNewline<'a>]),
    SpaceAfter(&'a Pattern<'a>, &'a [CommentOrNewline<'a>]),
    Malformed(&'a [u8]),
    QualifiedIdentifier { module_name: &'a [u8], ident: &'a [u8] },
}

/// One branch of a `when`: its alternative patterns, its guard and its
/// result.
#[derive(Clone, Copy, Debug, PartialEq)]
pub struct WhenBranch<'a> {
    pub patterns: List<'a, Located<Pattern<'a>>>,
    pub value: Located<Expr<'a>>,
    pub guard: Option<Located<Expr<'a>>>,
}

/// Why a definition could not be built.
#[derive(Clone, Copy, Debug, PartialEq, Eq, Structural)]
pub enum Unsupported {
    InvalidApplyInAnnotation,
    PrivateTagAnnotated,
    QualifiedIdentifierAnnotated,
    LiteralAnnotated,
    UnderscoreAnnotated,
    MalformedPatternAnnotated,
    RecordFieldAnnotated,
}

#[derive(Clone, Copy, Debug, PartialEq)]
pub enum Def<'a> {
    /// `pattern : Type`
    Annotation(Located<Pattern<'a>>, Located<TypeAnnotation<'a>>),
    /// `Name var var : Type`
    Alias {
        name: Located<&'a [u8]>,
        vars: List<'a, Located<Pattern<'a>>>,
        ann: Located<TypeAnnotation<'a>>,
    },
    /// `pattern = expr`
    Body(&'a Located<Pattern<'a>>, &'a Located<Expr<'a>>),
    /// An annotation with, on the next line, the body it annotates.
    AnnotatedBody {
        ann_pattern: &'a Located<Pattern<'a>>,
        ann_type: &'a Located<TypeAnnotation<'a>>,
        comment: Option<&'a [u8]>,
        body_pattern: &'a Located<Pattern<'a>>,
        body_expr: &'a Located<Expr<'a>>,
    },
    SpaceBefore(&'a Def<'a>, &'a [CommentOrNewline<'a>]),
    SpaceAfter(&'a Def<'a>, &'a [CommentOrNewline<'a>]),
    /// A definition of a shape that is recognised and not handled.
    NotYetImplemented(Unsupported),
}

#[derive(Clone, Copy, Debug, PartialEq)]
pub enum Expr<'a> {
    Float(&'a [u8]),
    Num(&'a [u8]),
    NonBase10Int { string: &'a [u8], base: Base, is_negative: bool },
    Str(StrLiteral<'a>),
    /// `expr.field`
    Access(&'a Expr<'a>, &'a [u8]),
    /// `.field`
    AccessorFunction(&'a [u8]),
    List { items: List<'a, Located<Expr<'a>>>, final_comments: &'a [CommentOrNewline<'a>] },
    Record {
        update: Option<&'a Located<Expr<'a>>>,
        fields: List<'a, Located<AssignedField<'a, Expr<'a>>>>,
        final_comments: &'a [CommentOrNewline<'a>],
    },
    Var { module_name: &'a [u8], ident: &'a [u8] },
    GlobalTag(&'a [u8]),
    PrivateTag(&'a [u8]),
    Closure(List<'a, Located<Pattern<'a>>>, &'a Located<Expr<'a>>),
    /// Definitions, then the expression they are in scope of.
    Defs(List<'a, Located<Def<'a>>>, &'a Located<Expr<'a>>),
    Apply(&'a Located<Expr<'a>>, List<'a, Located<Expr<'a>>>, CalledVia),
    /// Left operand, operator, right operand; precedence is not resolved.
    BinOp(&'a (Located<Expr<'a>>, Located<BinOp>, Located<Expr<'a>>)),
    UnaryOp(&'a Located<Expr<'a>>, Located<UnaryOp>),
    /// The (condition, branch) pairs, then the final `else` branch.
    If(List<'a, (Located<Expr<'a>>, Located<Expr<'a>>)>, &'a Located<Expr<'a>>),
    When(&'a Located<Expr<'a>>, List<'a, WhenBranch<'a>>),
    SpaceBefore(&'a Expr<'a>, &'a [CommentOrNewline<'a>]),
    SpaceAfter(&'a Expr<'a>, &'a [CommentOrNewline<'a>]),
    ParensAround(&'a Expr<'a>),
    Nested(&'a Expr<'a>),
    MalformedIdent(&'a [u8]),
    MalformedClosure,
    PrecedenceConflict(Located<BinOp>, Located<BinOp>, &'a Located<Expr<'a>>),
}

} // verus!
