//! From the text of an integer literal to its value.

use vstd::prelude::*;
use crate::region::Region;
use crate::registry::bytes_to_vec;

verus! {

/// The text of a literal without the underscores that may stand among
/// its digits.
pub open spec fn without_underscores(raw: Seq<u8>) -> Seq<u8> {
    raw.filter(|b: u8| b != 95)
}

/// The value of a digit in the base `radix`, if it is one: `0` to `9`,
/// and then the letters from `a` on, in either case.
pub open spec fn digit_value(b: u8, radix: int) -> Option<int> {
    let v: int = if 48 <= b <= 57 {
        b - 48
    } else if 97 <= b <= 122 {
        b - 97 + 10
    } else if 65 <= b <= 90 {
        b - 65 + 10
    } else {
        radix
    };
    if v < radix {
        Some(v)
    } else {
        None
    }
}

/// The number that a sequence of digits in the base `radix` stands for,
/// if all of them are digits of that base. No digits stand for 0.
pub open spec fn digits_value(digits: Seq<u8>, radix: int) -> Option<int>
    decreases digits.len(),
{
    if digits.len() == 0 {
        Some(0)
    } else {
        match (digits_value(digits.drop_last(), radix), digit_value(digits.last(), radix)) {
            (Some(v), Some(d)) => Some(v * radix + d),
            _ => None,
        }
    }
}

/// The 64-bit integer that a text stands for in the base `radix`:
/// underscores are ignored; a `+` or `-` may stand first; at least one
/// digit must follow; every digit must be one of the base; and the value
/// must fit.
pub open spec fn int_of(raw: Seq<u8>, radix: int) -> Option<i64> {
    let text = without_underscores(raw);
    let signed = text.len() > 0 && (text[0] == 45 || text[0] == 43);
    let digits = if signed {
        text.drop_first()
    } else {
        text
    };
    if digits.len() == 0 {
        None
    } else {
        match digits_value(digits, radix) {
            Some(v) => {
                let n = if signed && text[0] == 45 {
                    -v
                } else {
                    v
                };
                if i64::MIN <= n <= i64::MAX {
                    Some(n as i64)
                } else {
                    None
                }
            },
            None => None,
        }
    }
}

fn digit_of(b: u8, radix: u8) -> (r: Option<u8>)
    requires
        2 <= radix <= 36,
    ensures
        match r {
            Some(d) => digit_value(b, radix as int) == Some(d as int),
            None => digit_value(b, radix as int) is None,
        },
{
    let v: u8 = if 48 <= b && b <= 57 {
        b - 48
    } else if 97 <= b && b <= 122 {
        b - 97 + 10
    } else if 65 <= b && b <= 90 {
        b - 65 + 10
    } else {
        radix
    };
    if v < radix {
        Some(v)
    } else {
        None
    }
}

/// The value of digits only grows as digits are added, and is defined
/// only if the value of every shorter run of them is.
proof fn lemma_digits_grow(digits: Seq<u8>, n: int, radix: int)
    requires
        0 <= n <= digits.len(),
        radix >= 2,
    ensures
        digits_value(digits, radix) is Some ==> digits_value(digits.subrange(0, n), radix) is Some
            && 0 <= digits_value(digits.subrange(0, n), radix)->0 <= digits_value(
            digits,
            radix,
        )->0,
    decreases digits.len(),
{
    if n == digits.len() {
        assert(digits.subrange(0, n) =~= digits);
        if digits.len() > 0 {
            lemma_digits_grow(digits.drop_last(), digits.len() - 1, radix);
            assert(digits.drop_last().subrange(0, digits.len() - 1) =~= digits.drop_last());
        }
    } else {
        lemma_digits_grow(digits.drop_last(), n, radix);
        assert(digits.drop_last().subrange(0, n) =~= digits.subrange(0, n));
        if digits_value(digits, radix) is Some {
            let v = digits_value(digits.drop_last(), radix)->0;
            let d = digit_value(digits.last(), radix)->0;
            lemma_digits_grow(digits.drop_last(), digits.len() - 1, radix);
            assert(digits.drop_last().subrange(0, digits.len() - 1) =~= digits.drop_last());
            assert(v * radix + d >= v) by (nonlinear_arith)
                requires
                    v >= 0,
                    radix >= 2,
                    d >= 0,
            ;
        }
    }
}

/// Reads the text of an integer literal in the base `radix`.
fn parse_int(raw: &[u8], radix: u8) -> (r: Option<i64>)
    requires
        2 <= radix <= 16,
    ensures
        r == int_of(raw@, radix as int),
{
    let ghost keep = |b: u8| b != 95;
    let ghost text = without_underscores(raw@);
    let mut started: bool = false;
    let mut signed: bool = false;
    let mut negative: bool = false;
    let mut any_digit: bool = false;
    // The value of the digits so far, never more than 2^63.
    let mut value: u64 = 0;
    let mut i: usize = 0;
    let limit: u64 = 0x8000_0000_0000_0000;
    while i < raw.len()
        invariant
            i <= raw@.len(),
            2 <= radix <= 16,
            keep == (|b: u8| b != 95),
            text == raw@.filter(keep),
            limit == 0x8000_0000_0000_0000,
            value <= limit,
            ({
                let seen = raw@.subrange(0, i as int).filter(keep);
                let digits = if signed {
                    seen.drop_first()
                } else {
                    seen
                };
                &&& started == (seen.len() > 0)
                &&& signed == (seen.len() > 0 && (seen[0] == 45 || seen[0] == 43))
                &&& negative == (signed && seen[0] == 45)
                &&& any_digit == (digits.len() > 0)
                &&& digits_value(digits, radix as int) == Some(value as int)
            }),
        decreases raw@.len() - i,
    {
        let b: u8 = raw[i];
        let ghost seen = raw@.subrange(0, i as int).filter(keep);
        let ghost next = raw@.subrange(0, i + 1).filter(keep);
        proof {
            assert(raw@.subrange(0, i + 1) =~= raw@.subrange(0, i as int).push(b));
            lemma_filter_push_byte(raw@.subrange(0, i as int), b, keep);
            // What has been seen is the start of the whole text.
            assert(raw@ =~= raw@.subrange(0, i + 1).add(raw@.subrange(i + 1, raw@.len() as int)));
            Seq::filter_distributes_over_add(
                raw@.subrange(0, i + 1),
                raw@.subrange(i + 1, raw@.len() as int),
                keep,
            );
        }
        let ghost tail = raw@.subrange(i + 1, raw@.len() as int).filter(keep);
        assert(text =~= next.add(tail));
        if b != 95 {
            assert(next =~= seen.push(b));
            if !started && (b == 45 || b == 43) {
                started = true;
                signed = true;
                negative = b == 45;
                proof {
                    assert(next.drop_first() =~= Seq::<u8>::empty());
                }
            } else {
                let ghost digits = if signed {
                    seen.drop_first()
                } else {
                    seen
                };
                let ghost next_digits = if signed {
                    next.drop_first()
                } else {
                    next
                };
                proof {
                    assert(next_digits =~= digits.push(b));
                    assert(next_digits.drop_last() =~= digits);
                    // The digits seen are the start of all the digits.
                    let all_digits = if signed {
                        text.drop_first()
                    } else {
                        text
                    };
                    assert(text.len() > 0 && text[0] == next[0]);
                    assert(all_digits.subrange(0, next_digits.len() as int) =~= next_digits);
                    lemma_digits_grow(all_digits, next_digits.len() as int, radix as int);
                }
                match digit_of(b, radix) {
                    None => {
                        return None;
                    },
                    Some(d) => {
                        if value > (limit - d as u64) / radix as u64 {
                            // The digits stand for more than 2^63.
                            proof {
                                let v = value as int;
                                let r = radix as int;
                                let dd = d as int;
                                assert(v * r + dd > 0x8000_0000_0000_0000) by (nonlinear_arith)
                                    requires
                                        v > (0x8000_0000_0000_0000 - dd) / r,
                                        2 <= r <= 16,
                                        0 <= dd < r,
                                ;
                            }
                            return None;
                        }
                        proof {
                            let v = value as int;
                            let r = radix as int;
                            let dd = d as int;
                            assert(v * r + dd <= 0x8000_0000_0000_0000) by (nonlinear_arith)
                                requires
                                    v <= (0x8000_0000_0000_0000 - dd) / r,
                                    2 <= r <= 16,
                                    0 <= dd < r,
                                    v >= 0,
                            ;
                        }
                        value = value * radix as u64 + d as u64;
                        started = true;
                        any_digit = true;
                    },
                }
            }
        } else {
            assert(next =~= seen);
        }
        i = i + 1;
    }
    proof {
        assert(raw@.subrange(0, raw@.len() as int) =~= raw@);
    }
    if !any_digit {
        return None;
    }
    if negative {
        if value == limit {
            Some(i64::MIN)
        } else {
            Some(-(value as i64))
        }
    } else if value == limit {
        None
    } else {
        Some(value as i64)
    }
}

/// Filtering a sequence with one more element at its end.
proof fn lemma_filter_push_byte(s: Seq<u8>, x: u8, keep: spec_fn(u8) -> bool)
    ensures
        s.push(x).filter(keep) == if keep(x) {
            s.filter(keep).push(x)
        } else {
            s.filter(keep)
        },
{
    reveal(Seq::filter);
    assert(s.push(x).drop_last() =~= s);
    assert(s.push(x).last() == x);
}

/// The value of a decimal integer literal, or the text of the literal if
/// it has none: underscores are ignored, and the value must fit 64 bits.
pub fn finish_parsing_int<'a>(raw: &'a [u8]) -> (r: Result<i64, &'a [u8]>)
    ensures
        r == match int_of(raw@, 10) {
            Some(n) => Ok::<i64, &[u8]>(n),
            None => Err(raw),
        },
{
    match parse_int(raw, 10) {
        Some(n) => Ok(n),
        None => Err(raw),
    }
}

/// The value of the digits of a hexadecimal integer literal, or the text
/// if it has none.
pub fn finish_parsing_hex<'a>(raw: &'a [u8]) -> (r: Result<i64, &'a [u8]>)
    ensures
        r == match int_of(raw@, 16) {
            Some(n) => Ok::<i64, &[u8]>(n),
            None => Err(raw),
        },
{
    match parse_int(raw, 16) {
        Some(n) => Ok(n),
        None => Err(raw),
    }
}

/// The value of the digits of an octal integer literal, or the text if it
/// has none.
pub fn finish_parsing_oct<'a>(raw: &'a [u8]) -> (r: Result<i64, &'a [u8]>)
    ensures
        r == match int_of(raw@, 8) {
            Some(n) => Ok::<i64, &[u8]>(n),
            None => Err(raw),
        },
{
    match parse_int(raw, 8) {
        Some(n) => Ok(n),
        None => Err(raw),
    }
}

/// The value of the digits of a binary integer literal, or the text if it
/// has none.
pub fn finish_parsing_bin<'a>(raw: &'a [u8]) -> (r: Result<i64, &'a [u8]>)
    ensures
        r == match int_of(raw@, 2) {
            Some(n) => Ok::<i64, &[u8]>(n),
            None => Err(raw),
        },
{
    match parse_int(raw, 2) {
        Some(n) => Ok(n),
        None => Err(raw),
    }
}

/// An error that is found when a program is made ready to run, and is
/// raised only if the program reaches it.
#[derive(Debug)]
pub enum RuntimeError {
    /// An integer literal whose value does not fit, with its text.
    IntOutsideRange(Vec<u8>),
}

/// Something wrong with a program that its author is told of.
#[derive(Debug)]
pub enum Problem {
    RuntimeError(RuntimeError),
}

/// What takes the place of a number literal in a program made ready to
/// run.
#[derive(Debug)]
pub enum NumExpr {
    Int(i64),
    RuntimeError(RuntimeError),
}

/// What is asked of the type of a number literal.
#[derive(Clone, Copy, Debug, PartialEq, Eq, Structural)]
pub enum NumConstraint {
    /// The literal in this region must have the type that is expected of
    /// it, and that type must be an integer type.
    IntLiteral(Region),
    /// Nothing is asked.
    True,
}

/// Makes of the outcome of reading an integer literal the expression
/// that takes its place and what is asked of its type. A literal without
/// a value becomes an error that is raised when the program reaches it; it
/// is written down among `problems`, and nothing is asked of its type.
pub fn int_expr_from_result(result: Result<i64, &[u8]>, problems: &mut Vec<Problem>, region: Region) -> (r:
    (NumConstraint, NumExpr))
    ensures
        match result {
            Ok(value) => {
                &&& final(problems)@ == old(problems)@
                &&& r.0 == NumConstraint::IntLiteral(region)
                &&& r.1 matches NumExpr::Int(n) && n == value
            },
            Err(raw) => {
                &&& final(problems)@.len() == old(problems)@.len() + 1
                &&& final(problems)@.subrange(0, old(problems)@.len() as int) == old(problems)@
                &&& final(problems)@.last() matches Problem::RuntimeError(
                    RuntimeError::IntOutsideRange(text),
                ) && text@ == raw@
                &&& r.0 == NumConstraint::True
                &&& r.1 matches NumExpr::RuntimeError(RuntimeError::IntOutsideRange(text))
                    && text@ == raw@
            },
        },
{
    match result {
        Ok(value) => (NumConstraint::IntLiteral(region), NumExpr::Int(value)),
        Err(raw) => {
            let ghost before = problems@;
            problems.push(Problem::RuntimeError(RuntimeError::IntOutsideRange(bytes_to_vec(raw))));
            proof {
                assert(problems@.subrange(0, before.len() as int) =~= before);
            }
            (
                NumConstraint::True,
                NumExpr::RuntimeError(RuntimeError::IntOutsideRange(bytes_to_vec(raw))),
            )
        },
    }
}

} // verus!
