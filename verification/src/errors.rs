//! What can go wrong while parsing. Each part of the grammar has an error
//! type of its own, whose values say where the parser stood (line and
//! column) when that part could not go on. An error of an inner part is
//! wrapped, on its way out, in the error of the part that contains it.

use vstd::prelude::*;
use crate::region::Region;
use crate::state::{BadInputError, Progress, State};

verus! {

pub type Row = u32;

pub type Col = u16;

/// Why white space could not be read.
#[derive(Clone, Copy, Debug, PartialEq, Eq, Structural)]
pub enum SpaceProblem {
    /// The white space holds a byte that may not stand there.
    BadInput(BadInputError),
    /// After a line break the text is indented less than it must be.
    Outdented,
    /// White space must stand here, and none does.
    Expected,
}

#[derive(Clone, Copy, Debug, PartialEq, Eq, Structural)]
pub enum ENumber {
    Start,
    End,
}

#[derive(Clone, Copy, Debug, PartialEq, Eq, Structural)]
pub enum EString {
    Open(Row, Col),
    /// The line or the input ends before the closing quote.
    EndlessSingle(Row, Col),
    UnknownEscape(Row, Col),
}

/// Errors of type annotations.
#[derive(Clone, Copy, Debug, PartialEq, Eq, Structural)]
pub enum EType {
    Start(Row, Col),
    End(Row, Col),
    Space(BadInputError, Row, Col),
    FunctionArrow(Row, Col),
    RecordOpen(Row, Col),
    RecordEnd(Row, Col),
    RecordField(Row, Col),
    RecordColon(Row, Col),
    InParensEnd(Row, Col),
    IndentStart(Row, Col),
    IndentEnd(Row, Col),
}

/// Errors of patterns.
#[derive(Clone, Copy, Debug, PartialEq)]
pub enum EPattern<'a> {
    Start(Row, Col),
    End(Row, Col),
    Space(BadInputError, Row, Col),
    RecordOpen(Row, Col),
    RecordEnd(Row, Col),
    RecordField(Row, Col),
    RecordColon(Row, Col),
    /// The default of an optional field could not be read.
    RecordSyntax(&'a SyntaxError<'a>, Row, Col),
    InParensEnd(Row, Col),
    Str(EString, Row, Col),
    IndentStart(Row, Col),
    IndentEnd(Row, Col),
}

#[derive(Clone, Copy, Debug, PartialEq)]
pub enum ERecord<'a> {
    End(Row, Col),
    Open(Row, Col),
    Field(Row, Col),
    Colon(Row, Col),
    QuestionMark(Row, Col),
    Ampersand(Row, Col),
    Updateable(Row, Col),
    Syntax(&'a SyntaxError<'a>, Row, Col),
    Space(BadInputError, Row, Col),
    IndentOpen(Row, Col),
    IndentColon(Row, Col),
    IndentAmpersand(Row, Col),
    IndentEnd(Row, Col),
}

#[derive(Clone, Copy, Debug, PartialEq)]
pub enum EInParens<'a> {
    End(Row, Col),
    Open(Row, Col),
    Syntax(&'a SyntaxError<'a>, Row, Col),
    Space(BadInputError, Row, Col),
    IndentOpen(Row, Col),
    IndentEnd(Row, Col),
}

#[derive(Clone, Copy, Debug, PartialEq)]
pub enum ELambda<'a> {
    Space(BadInputError, Row, Col),
    Start(Row, Col),
    Arrow(Row, Col),
    Comma(Row, Col),
    Arg(Row, Col),
    Pattern(EPattern<'a>, Row, Col),
    Syntax(&'a SyntaxError<'a>, Row, Col),
    IndentArrow(Row, Col),
    IndentBody(Row, Col),
    IndentArg(Row, Col),
}

#[derive(Clone, Copy, Debug, PartialEq)]
pub enum EList<'a> {
    Open(Row, Col),
    End(Row, Col),
    Space(BadInputError, Row, Col),
    Syntax(&'a SyntaxError<'a>, Row, Col),
    IndentOpen(Row, Col),
    IndentEnd(Row, Col),
}

#[derive(Clone, Copy, Debug, PartialEq)]
pub enum EWhen<'a> {
    Space(BadInputError, Row, Col),
    When(Row, Col),
    Is(Row, Col),
    Pattern(EPattern<'a>, Row, Col),
    Arrow(Row, Col),
    Bar(Row, Col),
    IfToken(Row, Col),
    IfGuard(&'a SyntaxError<'a>, Row, Col),
    Syntax(&'a SyntaxError<'a>, Row, Col),
    IndentIs(Row, Col),
    IndentCondition(Row, Col),
    IndentPattern(Row, Col),
    IndentArrow(Row, Col),
    IndentBranch(Row, Col),
    IndentIfGuard(Row, Col),
    /// An alternative of a branch does not start in the column of the
    /// first branch: by how many columns it is off, and where.
    PatternAlignment(i32, Row, Col),
}

#[derive(Clone, Copy, Debug, PartialEq)]
pub enum EIf<'a> {
    Space(BadInputError, Row, Col),
    If(Row, Col),
    ThenToken(Row, Col),
    Else(Row, Col),
    Syntax(&'a SyntaxError<'a>, Row, Col),
    IndentCondition(Row, Col),
    IndentIf(Row, Col),
    IndentThenToken(Row, Col),
    IndentElseToken(Row, Col),
    IndentThenBranch(Row, Col),
    IndentElseBranch(Row, Col),
}

#[derive(Clone, Copy, Debug, PartialEq)]
pub enum EExpr<'a> {
    /// No expression starts here.
    Start(Row, Col),
    End(Row, Col),
    Space(BadInputError, Row, Col),
    Access(Row, Col),
    UnaryNot(Row, Col),
    UnaryNegate(Row, Col),
    Def(&'a SyntaxError<'a>, Row, Col),
    Type(EType, Row, Col),
    Equals(Row, Col),
    Colon(Row, Col),
    Ident(Row, Col),
    /// Arguments followed by `=`, as in `f a b = ...`.
    ElmStyleFunction(Region, Row, Col),
    MalformedPattern(Row, Col),
    Syntax(&'a SyntaxError<'a>, Row, Col),
    When(EWhen<'a>, Row, Col),
    If(EIf<'a>, Row, Col),
    Lambda(ELambda<'a>, Row, Col),
    InParens(EInParens<'a>, Row, Col),
    Record(ERecord<'a>, Row, Col),
    Str(EString, Row, Col),
    Number(ENumber, Row, Col),
    List(EList<'a>, Row, Col),
    IndentStart(Row, Col),
    IndentEnd(Row, Col),
    IndentDefBody(Row, Col),
    IndentEquals(Row, Col),
    IndentAnnotation(Row, Col),
}

/// The error of a whole parse.
#[derive(Clone, Copy, Debug, PartialEq)]
pub enum SyntaxError<'a> {
    Unexpected(Region),
    /// A definition starts in a column to the left of where it may.
    OutdentedTooFar,
    /// The `=` of a definition stands to the left of the definition.
    EqualsOutdented { equals_indent: u16, def_start_col: u16 },
    ConditionFailed,
    Eof(Region),
    /// An expression that cannot be read as a pattern stands where a
    /// pattern must.
    InvalidPattern,
    ReservedKeyword(Region),
    Expr(EExpr<'a>),
    Pattern(EPattern<'a>),
    Type(EType),
    Space(BadInputError),
    NotEndOfFile(Row, Col),
}

/// What a parser hands back: on success the progress it made, what it read
/// and the cursor after it; on failure the progress, the error and the
/// cursor where it failed.
pub type ParseResult<'a, T, E> = Result<(Progress, T, State<'a>), (Progress, E, State<'a>)>;


/// The rules every parser keeps: the cursor it hands back is a cursor into
/// the same text, at the same place or further on; on success it reports
/// progress exactly when it consumed input; a failure without progress
/// leaves the cursor where it was.
pub open spec fn moves_on<'a, T, E>(r: ParseResult<'a, T, E>, start: State<'a>) -> bool {
    match r {
        Ok((p, _, s)) => s.extends(start) && (p is NoProgress <==> s.offset == start.offset),
        Err((p, _, s)) => s.extends(start) && (p is NoProgress ==> s == start),
    }
}

/// The cursor a result carries.
pub open spec fn state_of<'a, T, E>(r: ParseResult<'a, T, E>) -> State<'a> {
    match r {
        Ok((_, _, s)) => s,
        Err((_, _, s)) => s,
    }
}

impl<'a> EExpr<'a> {
    /// The error for white space that could not be read at `at`: a
    /// `Space` error if the input is bad, and `indent` otherwise.
    pub open spec fn space_of(problem: SpaceProblem, indent: EExpr<'a>, at: State<'a>) -> EExpr<'a> {
        match problem {
            SpaceProblem::BadInput(bad) => EExpr::Space(bad, at.line, at.column),
            SpaceProblem::Outdented => indent,
            SpaceProblem::Expected => indent,
        }
    }

    /// The error for white space that could not be read at `at`:
    /// a `Space` error if the input is bad, and `indent` otherwise.
    pub fn space(problem: SpaceProblem, indent: EExpr<'a>, at: &State<'a>) -> (e: EExpr<'a>)
        ensures
            e == EExpr::space_of(problem, indent, *at),
            e == match problem {
                SpaceProblem::BadInput(bad) => EExpr::Space(bad, at.line, at.column),
                SpaceProblem::Outdented => indent,
                SpaceProblem::Expected => indent,
            },
    {
        match problem {
            SpaceProblem::BadInput(bad) => EExpr::Space(bad, at.line, at.column),
            SpaceProblem::Outdented => indent,
            SpaceProblem::Expected => indent,
        }
    }
}

impl<'a> ERecord<'a> {
    /// The error for white space that could not be read at `at`: a
    /// `Space` error if the input is bad, and `indent` otherwise.
    pub open spec fn space_of(problem: SpaceProblem, indent: ERecord<'a>, at: State<'a>) -> ERecord<'a> {
        match problem {
            SpaceProblem::BadInput(bad) => ERecord::Space(bad, at.line, at.column),
            SpaceProblem::Outdented => indent,
            SpaceProblem::Expected => indent,
        }
    }

    pub fn space(problem: SpaceProblem, indent: ERecord<'a>, at: &State<'a>) -> (e: ERecord<'a>)
        ensures
            e == ERecord::space_of(problem, indent, *at),
            e == match problem {
                SpaceProblem::BadInput(bad) => ERecord::Space(bad, at.line, at.column),
                SpaceProblem::Outdented => indent,
                SpaceProblem::Expected => indent,
            },
    {
        match problem {
            SpaceProblem::BadInput(bad) => ERecord::Space(bad, at.line, at.column),
            SpaceProblem::Outdented => indent,
            SpaceProblem::Expected => indent,
        }
    }
}

impl<'a> EInParens<'a> {
    /// The error for white space that could not be read at `at`: a
    /// `Space` error if the input is bad, and `indent` otherwise.
    pub open spec fn space_of(problem: SpaceProblem, indent: EInParens<'a>, at: State<'a>) -> EInParens<'a> {
        match problem {
            SpaceProblem::BadInput(bad) => EInParens::Space(bad, at.line, at.column),
            SpaceProblem::Outdented => indent,
            SpaceProblem::Expected => indent,
        }
    }

    pub fn space(problem: SpaceProblem, indent: EInParens<'a>, at: &State<'a>) -> (e: EInParens<'a>)
        ensures
            e == EInParens::space_of(problem, indent, *at),
            e == match problem {
                SpaceProblem::BadInput(bad) => EInParens::Space(bad, at.line, at.column),
                SpaceProblem::Outdented => indent,
                SpaceProblem::Expected => indent,
            },
    {
        match problem {
            SpaceProblem::BadInput(bad) => EInParens::Space(bad, at.line, at.column),
            SpaceProblem::Outdented => indent,
            SpaceProblem::Expected => indent,
        }
    }
}

impl<'a> ELambda<'a> {
    /// The error for white space that could not be read at `at`: a
    /// `Space` error if the input is bad, and `indent` otherwise.
    pub open spec fn space_of(problem: SpaceProblem, indent: ELambda<'a>, at: State<'a>) -> ELambda<'a> {
        match problem {
            SpaceProblem::BadInput(bad) => ELambda::Space(bad, at.line, at.column),
            SpaceProblem::Outdented => indent,
            SpaceProblem::Expected => indent,
        }
    }

    pub fn space(problem: SpaceProblem, indent: ELambda<'a>, at: &State<'a>) -> (e: ELambda<'a>)
        ensures
            e == ELambda::space_of(problem, indent, *at),
            e == match problem {
                SpaceProblem::BadInput(bad) => ELambda::Space(bad, at.line, at.column),
                SpaceProblem::Outdented => indent,
                SpaceProblem::Expected => indent,
            },
    {
        match problem {
            SpaceProblem::BadInput(bad) => ELambda::Space(bad, at.line, at.column),
            SpaceProblem::Outdented => indent,
            SpaceProblem::Expected => indent,
        }
    }
}

impl<'a> EList<'a> {
    /// The error for white space that could not be read at `at`: a
    /// `Space` error if the input is bad, and `indent` otherwise.
    pub open spec fn space_of(problem: SpaceProblem, indent: EList<'a>, at: State<'a>) -> EList<'a> {
        match problem {
            SpaceProblem::BadInput(bad) => EList::Space(bad, at.line, at.column),
            SpaceProblem::Outdented => indent,
            SpaceProblem::Expected => indent,
        }
    }

    pub fn space(problem: SpaceProblem, indent: EList<'a>, at: &State<'a>) -> (e: EList<'a>)
        ensures
            e == EList::space_of(problem, indent, *at),
            e == match problem {
                SpaceProblem::BadInput(bad) => EList::Space(bad, at.line, at.column),
                SpaceProblem::Outdented => indent,
                SpaceProblem::Expected => indent,
            },
    {
        match problem {
            SpaceProblem::BadInput(bad) => EList::Space(bad, at.line, at.column),
            SpaceProblem::Outdented => indent,
            SpaceProblem::Expected => indent,
        }
    }
}

impl<'a> EWhen<'a> {
    /// The error for white space that could not be read at `at`: a
    /// `Space` error if the input is bad, and `indent` otherwise.
    pub open spec fn space_of(problem: SpaceProblem, indent: EWhen<'a>, at: State<'a>) -> EWhen<'a> {
        match problem {
            SpaceProblem::BadInput(bad) => EWhen::Space(bad, at.line, at.column),
            SpaceProblem::Outdented => indent,
            SpaceProblem::Expected => indent,
        }
    }

    pub fn space(problem: SpaceProblem, indent: EWhen<'a>, at: &State<'a>) -> (e: EWhen<'a>)
        ensures
            e == EWhen::space_of(problem, indent, *at),
            e == match problem {
                SpaceProblem::BadInput(bad) => EWhen::Space(bad, at.line, at.column),
                SpaceProblem::Outdented => indent,
                SpaceProblem::Expected => indent,
            },
    {
        match problem {
            SpaceProblem::BadInput(bad) => EWhen::Space(bad, at.line, at.column),
            SpaceProblem::Outdented => indent,
            SpaceProblem::Expected => indent,
        }
    }
}

impl<'a> EIf<'a> {
    /// The error for white space that could not be read at `at`: a
    /// `Space` error if the input is bad, and `indent` otherwise.
    pub open spec fn space_of(problem: SpaceProblem, indent: EIf<'a>, at: State<'a>) -> EIf<'a> {
        match problem {
            SpaceProblem::BadInput(bad) => EIf::Space(bad, at.line, at.column),
            SpaceProblem::Outdented => indent,
            SpaceProblem::Expected => indent,
        }
    }

    pub fn space(problem: SpaceProblem, indent: EIf<'a>, at: &State<'a>) -> (e: EIf<'a>)
        ensures
            e == EIf::space_of(problem, indent, *at),
            e == match problem {
                SpaceProblem::BadInput(bad) => EIf::Space(bad, at.line, at.column),
                SpaceProblem::Outdented => indent,
                SpaceProblem::Expected => indent,
            },
    {
        match problem {
            SpaceProblem::BadInput(bad) => EIf::Space(bad, at.line, at.column),
            SpaceProblem::Outdented => indent,
            SpaceProblem::Expected => indent,
        }
    }
}

impl<'a> EPattern<'a> {
    /// The error for white space that could not be read at `at`: a
    /// `Space` error if the input is bad, and `indent` otherwise.
    pub open spec fn space_of(problem: SpaceProblem, indent: EPattern<'a>, at: State<'a>) -> EPattern<'a> {
        match problem {
            SpaceProblem::BadInput(bad) => EPattern::Space(bad, at.line, at.column),
            SpaceProblem::Outdented => indent,
            SpaceProblem::Expected => indent,
        }
    }

    pub fn space(problem: SpaceProblem, indent: EPattern<'a>, at: &State<'a>) -> (e: EPattern<'a>)
        ensures
            e == EPattern::space_of(problem, indent, *at),
            e == match problem {
                SpaceProblem::BadInput(bad) => EPattern::Space(bad, at.line, at.column),
                SpaceProblem::Outdented => indent,
                SpaceProblem::Expected => indent,
            },
    {
        match problem {
            SpaceProblem::BadInput(bad) => EPattern::Space(bad, at.line, at.column),
            SpaceProblem::Outdented => indent,
            SpaceProblem::Expected => indent,
        }
    }
}

impl EType {
    /// The error for white space that could not be read at `at`: a
    /// `Space` error if the input is bad, and `indent` otherwise.
    pub open spec fn space_of(problem: SpaceProblem, indent: EType, at: State) -> EType {
        match problem {
            SpaceProblem::BadInput(bad) => EType::Space(bad, at.line, at.column),
            SpaceProblem::Outdented => indent,
            SpaceProblem::Expected => indent,
        }
    }

    pub fn space(problem: SpaceProblem, indent: EType, at: &State) -> (e: EType)
        ensures
            e == EType::space_of(problem, indent, *at),
            e == match problem {
                SpaceProblem::BadInput(bad) => EType::Space(bad, at.line, at.column),
                SpaceProblem::Outdented => indent,
                SpaceProblem::Expected => indent,
            },
    {
        match problem {
            SpaceProblem::BadInput(bad) => EType::Space(bad, at.line, at.column),
            SpaceProblem::Outdented => indent,
            SpaceProblem::Expected => indent,
        }
    }
}

impl<'a> SyntaxError<'a> {
    /// The error of a whole parse for white space that could not be
    /// read.
    pub open spec fn space_of(problem: SpaceProblem) -> SyntaxError<'a> {
        match problem {
            SpaceProblem::BadInput(bad) => SyntaxError::Space(bad),
            SpaceProblem::Outdented => SyntaxError::OutdentedTooFar,
            SpaceProblem::Expected => SyntaxError::ConditionFailed,
        }
    }

    pub fn space(problem: SpaceProblem) -> (e: SyntaxError<'a>)
        ensures
            e == SyntaxError::space_of(problem),
            e == match problem {
                SpaceProblem::BadInput(bad) => SyntaxError::Space(bad),
                SpaceProblem::Outdented => SyntaxError::OutdentedTooFar,
                SpaceProblem::Expected => SyntaxError::ConditionFailed,
            },
    {
        match problem {
            SpaceProblem::BadInput(bad) => SyntaxError::Space(bad),
            SpaceProblem::Outdented => SyntaxError::OutdentedTooFar,
            SpaceProblem::Expected => SyntaxError::ConditionFailed,
        }
    }
}

} // verus!
