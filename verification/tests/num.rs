use roc_front::low_level::LowLevel;
use roc_front::num::{
    finish_parsing_bin, finish_parsing_hex, finish_parsing_int, finish_parsing_oct,
    int_expr_from_result, NumConstraint, NumExpr, Problem, RuntimeError,
};
use roc_front::region::Region;

#[test]
fn decimal_literals() {
    assert_eq!(finish_parsing_int(b"0"), Ok(0));
    assert_eq!(finish_parsing_int(b"1_000_000"), Ok(1_000_000));
    assert_eq!(finish_parsing_int(b"-42"), Ok(-42));
    assert_eq!(finish_parsing_int(b"+42"), Ok(42));
    assert_eq!(finish_parsing_int(b"_-_4_2_"), Ok(-42));
    assert_eq!(finish_parsing_int(b"007"), Ok(7));
}

#[test]
fn decimal_literals_at_the_limits() {
    assert_eq!(finish_parsing_int(b"9223372036854775807"), Ok(i64::MAX));
    assert_eq!(finish_parsing_int(b"-9223372036854775808"), Ok(i64::MIN));
    assert_eq!(finish_parsing_int(b"9223372036854775808"), Err(&b"9223372036854775808"[..]));
    assert_eq!(finish_parsing_int(b"-9223372036854775809"), Err(&b"-9223372036854775809"[..]));
    assert_eq!(
        finish_parsing_int(b"99999999999999999999999999"),
        Err(&b"99999999999999999999999999"[..])
    );
}

#[test]
fn texts_that_are_no_integers() {
    assert_eq!(finish_parsing_int(b""), Err(&b""[..]));
    assert_eq!(finish_parsing_int(b"_"), Err(&b"_"[..]));
    assert_eq!(finish_parsing_int(b"-"), Err(&b"-"[..]));
    assert_eq!(finish_parsing_int(b"1-2"), Err(&b"1-2"[..]));
    assert_eq!(finish_parsing_int(b"12a"), Err(&b"12a"[..]));
    assert_eq!(finish_parsing_int(b"--1"), Err(&b"--1"[..]));
    assert_eq!(finish_parsing_int(b" 1"), Err(&b" 1"[..]));
}

#[test]
fn literals_of_other_bases() {
    assert_eq!(finish_parsing_hex(b"ff"), Ok(255));
    assert_eq!(finish_parsing_hex(b"FF_ff"), Ok(0xffff));
    assert_eq!(finish_parsing_hex(b"-1A"), Ok(-26));
    assert_eq!(finish_parsing_hex(b"7fffffffffffffff"), Ok(i64::MAX));
    assert_eq!(finish_parsing_hex(b"8000000000000000"), Err(&b"8000000000000000"[..]));
    assert_eq!(finish_parsing_hex(b"-8000000000000000"), Ok(i64::MIN));
    assert_eq!(finish_parsing_hex(b"g"), Err(&b"g"[..]));
    assert_eq!(finish_parsing_oct(b"777"), Ok(511));
    assert_eq!(finish_parsing_oct(b"8"), Err(&b"8"[..]));
    assert_eq!(finish_parsing_bin(b"1010_1010"), Ok(170));
    assert_eq!(finish_parsing_bin(b"2"), Err(&b"2"[..]));
    assert_eq!(finish_parsing_bin(b""), Err(&b""[..]));
}

#[test]
fn integer_in_range_is_constrained_as_a_literal() {
    let mut problems = Vec::new();
    let region = Region::new(0, 0, 4, 6);
    let (constraint, expr) = int_expr_from_result(finish_parsing_int(b"12"), &mut problems, region);
    assert_eq!(constraint, NumConstraint::IntLiteral(region));
    assert!(matches!(expr, NumExpr::Int(12)));
    assert!(problems.is_empty());
}

#[test]
fn integer_out_of_range_is_a_runtime_error() {
    let mut problems = Vec::new();
    let raw = b"99999999999999999999";
    let (constraint, expr) =
        int_expr_from_result(finish_parsing_int(raw), &mut problems, Region::zero());
    assert_eq!(constraint, NumConstraint::True);
    match expr {
        NumExpr::RuntimeError(RuntimeError::IntOutsideRange(text)) => assert_eq!(text, raw.to_vec()),
        other => panic!("unexpected {:?}", other),
    }
    assert_eq!(problems.len(), 1);
    match &problems[0] {
        Problem::RuntimeError(RuntimeError::IntOutsideRange(text)) => assert_eq!(*text, raw.to_vec()),
    }
}

#[test]
fn higher_order_operations_take_a_function() {
    let higher = [
        LowLevel::ListMap,
        LowLevel::ListMap2,
        LowLevel::ListMap3,
        LowLevel::ListMapWithIndex,
        LowLevel::ListKeepIf,
        LowLevel::ListWalk,
        LowLevel::ListWalkUntil,
        LowLevel::ListWalkBackwards,
        LowLevel::ListKeepOks,
        LowLevel::ListKeepErrs,
        LowLevel::ListSortWith,
        LowLevel::DictWalk,
    ];
    for op in higher {
        assert!(op.is_higher_order(), "{:?}", op);
    }
    let first_order = [
        LowLevel::StrConcat,
        LowLevel::ListLen,
        LowLevel::ListDrop,
        LowLevel::ListSwap,
        LowLevel::DictSize,
        LowLevel::DictKeys,
        LowLevel::SetFromList,
        LowLevel::NumAdd,
        LowLevel::NumIntCast,
        LowLevel::Eq,
        LowLevel::Not,
        LowLevel::Hash,
        LowLevel::ExpectTrue,
    ];
    for op in first_order {
        assert!(!op.is_higher_order(), "{:?}", op);
    }
}
