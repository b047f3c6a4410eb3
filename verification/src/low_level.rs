//! The low-level operations that builtins are lowered to.

use vstd::prelude::*;

verus! {

/// A primitive operation that is emitted directly as machine instructions.
/// User code never names one: each is wrapped by a builtin function.
#[derive(Debug, Copy, Clone, PartialEq, Eq)]
pub enum LowLevel {
    StrConcat,
    StrJoinWith,
    StrIsEmpty,
    StrStartsWith,
    StrStartsWithCodePoint,
    StrEndsWith,
    StrSplit,
    StrCountGraphemes,
    StrFromInt,
    StrFromUtf8,
    StrToBytes,
    StrFromFloat,
    ListLen,
    ListGetUnsafe,
    ListSet,
    ListSingle,
    ListRepeat,
    ListReverse,
    ListConcat,
    ListContains,
    ListAppend,
    ListPrepend,
    ListJoin,
    ListRange,
    ListMap,
    ListMap2,
    ListMap3,
    ListMapWithIndex,
    ListKeepIf,
    ListWalk,
    ListWalkUntil,
    ListWalkBackwards,
    ListKeepOks,
    ListKeepErrs,
    ListSortWith,
    ListDrop,
    ListSwap,
    DictSize,
    DictEmpty,
    DictInsert,
    DictRemove,
    DictContains,
    DictGetUnsafe,
    DictKeys,
    DictValues,
    DictUnion,
    DictIntersection,
    DictDifference,
    DictWalk,
    SetFromList,
    NumAdd,
    NumAddWrap,
    NumAddChecked,
    NumSub,
    NumSubWrap,
    NumSubChecked,
    NumMul,
    NumMulWrap,
    NumMulChecked,
    NumGt,
    NumGte,
    NumLt,
    NumLte,
    NumCompare,
    NumDivUnchecked,
    NumRemUnchecked,
    NumIsMultipleOf,
    NumAbs,
    NumNeg,
    NumSin,
    NumCos,
    NumSqrtUnchecked,
    NumLogUnchecked,
    NumRound,
    NumToFloat,
    NumPow,
    NumCeiling,
    NumPowInt,
    NumFloor,
    NumIsFinite,
    NumAtan,
    NumAcos,
    NumAsin,
    NumBitwiseAnd,
    NumBitwiseXor,
    NumBitwiseOr,
    NumShiftLeftBy,
    NumShiftRightBy,
    NumShiftRightZfBy,
    NumIntCast,
    Eq,
    NotEq,
    And,
    Or,
    Not,
    Hash,
    ExpectTrue,
}

impl LowLevel {
    /// The operations that always take a function among their arguments:
    /// the list transformers and walkers, the sort, and the dictionary walk.
    pub open spec fn takes_function(self) -> bool {
        self is ListMap ||
        self is ListMap2 ||
        self is ListMap3 ||
        self is ListMapWithIndex ||
        self is ListKeepIf ||
        self is ListWalk ||
        self is ListWalkUntil ||
        self is ListWalkBackwards ||
        self is ListKeepOks ||
        self is ListKeepErrs ||
        self is ListSortWith ||
        self is DictWalk
    }

    /// Is one of the arguments always a function? `List.map` is an example.
    pub fn is_higher_order(&self) -> (b: bool)
        ensures
            b == self.takes_function(),
    {
        match self {
            LowLevel::StrConcat
            | LowLevel::StrJoinWith
            | LowLevel::StrIsEmpty
            | LowLevel::StrStartsWith
            | LowLevel::StrStartsWithCodePoint
            | LowLevel::StrEndsWith
            | LowLevel::StrSplit
            | LowLevel::StrCountGraphemes
            | LowLevel::StrFromInt
            | LowLevel::StrFromUtf8
            | LowLevel::StrToBytes
            | LowLevel::StrFromFloat
            | LowLevel::ListLen
            | LowLevel::ListGetUnsafe
            | LowLevel::ListSet
            | LowLevel::ListSingle
            | LowLevel::ListRepeat
            | LowLevel::ListReverse
            | LowLevel::ListConcat
            | LowLevel::ListContains
            | LowLevel::ListAppend
            | LowLevel::ListPrepend
            | LowLevel::ListJoin
            | LowLevel::ListRange
            | LowLevel::ListDrop
            | LowLevel::ListSwap
            | LowLevel::DictSize
            | LowLevel::DictEmpty
            | LowLevel::DictInsert
            | LowLevel::DictRemove
            | LowLevel::DictContains
            | LowLevel::DictGetUnsafe
            | LowLevel::DictKeys
            | LowLevel::DictValues
            | LowLevel::DictUnion
            | LowLevel::DictIntersection
            | LowLevel::DictDifference
            | LowLevel::SetFromList
            | LowLevel::NumAdd
            | LowLevel::NumAddWrap
            | LowLevel::NumAddChecked
            | LowLevel::NumSub
            | LowLevel::NumSubWrap
            | LowLevel::NumSubChecked
            | LowLevel::NumMul
            | LowLevel::NumMulWrap
            | LowLevel::NumMulChecked
            | LowLevel::NumGt
            | LowLevel::NumGte
            | LowLevel::NumLt
            | LowLevel::NumLte
            | LowLevel::NumCompare
            | LowLevel::NumDivUnchecked
            | LowLevel::NumRemUnchecked
            | LowLevel::NumIsMultipleOf
            | LowLevel::NumAbs
            | LowLevel::NumNeg
            | LowLevel::NumSin
            | LowLevel::NumCos
            | LowLevel::NumSqrtUnchecked
            | LowLevel::NumLogUnchecked
            | LowLevel::NumRound
            | LowLevel::NumToFloat
            | LowLevel::NumPow
            | LowLevel::NumCeiling
            | LowLevel::NumPowInt
            | LowLevel::NumFloor
            | LowLevel::NumIsFinite
            | LowLevel::NumAtan
            | LowLevel::NumAcos
            | LowLevel::NumAsin
            | LowLevel::NumBitwiseAnd
            | LowLevel::NumBitwiseXor
            | LowLevel::NumBitwiseOr
            | LowLevel::NumShiftLeftBy
            | LowLevel::NumShiftRightBy
            | LowLevel::NumShiftRightZfBy
            | LowLevel::NumIntCast
            | LowLevel::Eq
            | LowLevel::NotEq
            | LowLevel::And
            | LowLevel::Or
            | LowLevel::Not
            | LowLevel::Hash
            | LowLevel::ExpectTrue => false,
            LowLevel::ListMap
            | LowLevel::ListMap2
            | LowLevel::ListMap3
            | LowLevel::ListMapWithIndex
            | LowLevel::ListKeepIf
            | LowLevel::ListWalk
            | LowLevel::ListWalkUntil
            | LowLevel::ListWalkBackwards
            | LowLevel::ListKeepOks
            | LowLevel::ListKeepErrs
            | LowLevel::ListSortWith
            | LowLevel::DictWalk => true,
        }
    }
}

} // verus!
