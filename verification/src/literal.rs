//! Number and string literals.

use vstd::prelude::*;
use crate::arena::{Arena, List};
use crate::ast::{Base, EscapedChar, Expr, StrLiteral, StrSegment};
use crate::blankspace::slice_of;
use crate::errors::{moves_on, EString, ParseResult};
use crate::ident::{digit, ident_byte, is_digit, is_ident_byte};
use crate::state::{lemma_same_line, lemma_state_at, lemma_the_slice, the_slice, Progress, State, NEWLINE};

verus! {

pub const MINUS: u8 = 45;

pub const UNDERSCORE: u8 = 95;

pub const QUOTE: u8 = 34;

pub const BACKSLASH: u8 = 92;

/// A number starts at the cursor: a digit, or a minus sign with a digit
/// right after it.
pub open spec fn at_number(state: State) -> bool {
    ||| (state.offset < state.input@.len() && is_digit(state.input@[state.offset as int]))
    ||| (state.at_byte(MINUS) && state.offset + 1 < state.input@.len() && is_digit(
        state.input@[state.offset + 1],
    ))
}

/// The base that the letter after a leading `0` announces.
pub open spec fn base_of(letter: u8) -> Option<Base> {
    if letter == 120 {
        Some(Base::Hex)
    } else if letter == 111 {
        Some(Base::Octal)
    } else if letter == 98 {
        Some(Base::Binary)
    } else {
        None
    }
}

fn base_letter(letter: u8) -> (b: Option<Base>)
    ensures
        b == base_of(letter),
{
    if letter == 120 {
        Some(Base::Hex)
    } else if letter == 111 {
        Some(Base::Octal)
    } else if letter == 98 {
        Some(Base::Binary)
    } else {
        None
    }
}

/// Where the digits and underscores that start at `off` end.
pub open spec fn digits_end(input: Seq<u8>, off: int) -> int
    decreases input.len() - off,
{
    if 0 <= off < input.len() && (is_digit(input[off]) || input[off] == UNDERSCORE) {
        digits_end(input, off + 1)
    } else {
        off
    }
}

/// Where the letters, digits and underscores that start at `off` end.
pub open spec fn any_digits_end(input: Seq<u8>, off: int) -> int
    decreases input.len() - off,
{
    if 0 <= off < input.len() && (is_ident_byte(input[off]) || input[off] == UNDERSCORE) {
        any_digits_end(input, off + 1)
    } else {
        off
    }
}

pub proof fn lemma_digits_end_bounds(input: Seq<u8>, off: int)
    requires
        0 <= off <= input.len(),
    ensures
        off <= digits_end(input, off) <= input.len(),
        off <= any_digits_end(input, off) <= input.len(),
    decreases input.len() - off,
{
    if off < input.len() {
        lemma_digits_end_bounds(input, off + 1);
    }
}

/// Consumes digits and underscores.
fn take_digits<'a>(state: State<'a>) -> (s: State<'a>)
    requires
        state.wf(),
    ensures
        s.extends(state),
        s.line == state.line,
        s.offset == digits_end(state.input@, state.offset as int),
        forall|k: int|
            state.offset <= k < s.offset ==> is_digit(#[trigger] state.input@[k])
                || state.input@[k] == UNDERSCORE,
        !(s.offset < s.input@.len() && (is_digit(s.input@[s.offset as int])
            || s.input@[s.offset as int] == UNDERSCORE)),
{
    let mut cur = state;
    loop
        invariant_except_break
            digits_end(state.input@, cur.offset as int) == digits_end(
                state.input@,
                state.offset as int,
            ),
        invariant
            cur.extends(state),
            state.wf(),
            forall|k: int|
                state.offset <= k < cur.offset ==> is_digit(#[trigger] state.input@[k])
                    || state.input@[k] == UNDERSCORE,
        ensures
            !(cur.offset < cur.input@.len() && (is_digit(cur.input@[cur.offset as int])
                || cur.input@[cur.offset as int] == UNDERSCORE)),
            cur.offset == digits_end(state.input@, state.offset as int),
        decreases cur.input@.len() - cur.offset,
    {
        match cur.peek() {
            Some(b) => {
                if digit(b) || b == UNDERSCORE {
                    cur = cur.advance();
                } else {
                    break ;
                }
            },
            None => {
                break ;
            },
        }
    }
    proof {
        lemma_same_line(state.input@, state.offset as int, cur.offset as int);
    }
    cur
}

/// Consumes letters, digits and underscores.
fn take_digits_of_any_base<'a>(state: State<'a>) -> (s: State<'a>)
    requires
        state.wf(),
    ensures
        s.extends(state),
        s.line == state.line,
        s.offset == any_digits_end(state.input@, state.offset as int),
        forall|k: int|
            state.offset <= k < s.offset ==> is_ident_byte(#[trigger] state.input@[k])
                || state.input@[k] == UNDERSCORE,
{
    let mut cur = state;
    loop
        invariant_except_break
            any_digits_end(state.input@, cur.offset as int) == any_digits_end(
                state.input@,
                state.offset as int,
            ),
        invariant
            cur.extends(state),
            state.wf(),
            forall|k: int|
                state.offset <= k < cur.offset ==> is_ident_byte(#[trigger] state.input@[k])
                    || state.input@[k] == UNDERSCORE,
        ensures
            cur.offset == any_digits_end(state.input@, state.offset as int),
        decreases cur.input@.len() - cur.offset,
    {
        match cur.peek() {
            Some(b) => {
                if ident_byte(b) || b == UNDERSCORE {
                    cur = cur.advance();
                } else {
                    break ;
                }
            },
            None => {
                break ;
            },
        }
    }
    proof {
        lemma_same_line(state.input@, state.offset as int, cur.offset as int);
    }
    cur
}

/// What a number literal may be read as.
pub open spec fn is_number(e: Expr) -> bool {
    e is Num || e is Float || e is NonBase10Int
}

/// A number literal, with its text as a sequence of bytes.
pub enum NumberShape {
    Num(Seq<u8>),
    Float(Seq<u8>),
    NonBase10Int { string: Seq<u8>, base: Base, is_negative: bool },
}

/// The number literal that an expression is.
pub open spec fn number_shape(e: Expr) -> Option<NumberShape> {
    match e {
        Expr::Num(text) => Some(NumberShape::Num(text@)),
        Expr::Float(text) => Some(NumberShape::Float(text@)),
        Expr::NonBase10Int { string, base, is_negative } => Some(
            NumberShape::NonBase10Int { string: string@, base, is_negative },
        ),
        _ => None,
    }
}

/// Where the fraction that may follow the digits that end at `off` ends:
/// a dot, a digit right after it, and what digits and underscores follow.
pub open spec fn fraction_end(input: Seq<u8>, off: int) -> int {
    if 0 <= off && off + 1 < input.len() && input[off] == 46 && is_digit(input[off + 1]) {
        digits_end(input, off + 1)
    } else {
        off
    }
}

/// Where the exponent that may start at `off` ends: `e` or `E`, a sign if
/// one likes, a digit, and what digits and underscores follow.
pub open spec fn exponent_end(input: Seq<u8>, off: int) -> int {
    if 0 <= off < input.len() && (input[off] == 101 || input[off] == 69) {
        let after_sign = if off + 1 < input.len() && (input[off + 1] == MINUS || input[off + 1]
            == 43) {
            off + 2
        } else {
            off + 1
        };
        if after_sign < input.len() && is_digit(input[after_sign]) {
            digits_end(input, after_sign)
        } else {
            off
        }
    } else {
        off
    }
}

/// The number literal that starts at `off`, and where it ends, if one
/// starts there: an optional minus sign; then either `0x`, `0o` or `0b`
/// with what letters, digits and underscores follow, or decimal digits
/// with an optional fraction and an optional exponent.
///
/// A literal with a fraction or an exponent is a `Float`, one with a base
/// prefix a `NonBase10Int` that holds the digits after the prefix, and any
/// other a `Num`; `Float` and `Num` hold the literal's whole text.
pub open spec fn number_at(input: Seq<u8>, off: int) -> Option<(NumberShape, int)> {
    let negative = 0 <= off < input.len() && input[off] == MINUS;
    let first = if negative {
        off + 1
    } else {
        off
    };
    if !(0 <= first < input.len() && is_digit(input[first])) {
        None
    } else if input[first] == 48 && first + 1 < input.len() && base_of(input[first + 1]) is Some {
        let end = any_digits_end(input, first + 2);
        Some(
            (
                NumberShape::NonBase10Int {
                    string: input.subrange(first + 2, end),
                    base: base_of(input[first + 1])->0,
                    is_negative: negative,
                },
                end,
            ),
        )
    } else {
        let whole_end = digits_end(input, first);
        let with_fraction = fraction_end(input, whole_end);
        let end = exponent_end(input, with_fraction);
        if end == whole_end {
            Some((NumberShape::Num(input.subrange(off, end)), end))
        } else {
            Some((NumberShape::Float(input.subrange(off, end)), end))
        }
    }
}

/// The number literal of a shape: its text is the slice that holds it.
pub open spec fn number_expr<'a>(shape: NumberShape) -> Expr<'a> {
    match shape {
        NumberShape::Num(text) => Expr::Num(the_slice(text)),
        NumberShape::Float(text) => Expr::Float(the_slice(text)),
        NumberShape::NonBase10Int { string, base, is_negative } => Expr::NonBase10Int {
            string: the_slice(string),
            base,
            is_negative,
        },
    }
}

/// The number literal at the cursor, with the cursor after it.
#[verifier::opaque]
pub open spec fn number_value<'a>(state: State<'a>) -> Option<(Expr<'a>, State<'a>)> {
    match number_at(state.input@, state.offset as int) {
        Some((shape, end)) => Some((number_expr(shape), state.at(end))),
        None => None,
    }
}

/// Reads a number literal and nothing else: what `number_at` says, where
/// it says. Underscores may stand among the digits. Whether the digits
/// suit the base is not looked at here.
pub fn number_literal<'a>(state: State<'a>) -> (r: Option<(Expr<'a>, State<'a>)>)
    requires
        state.wf(),
    ensures
        r is Some <==> at_number(state),
        r == number_value(state),
        r matches Some((e, s)) ==> s.extends(state) && s.offset > state.offset && s.line
            == state.line && is_number(e),
{
    reveal(number_value);
    let r = read_number(state);
    proof {
        if let Some((e, s)) = r {
            lemma_state_at(state, s);
            match e {
                Expr::Num(text) => {
                    lemma_the_slice(text);
                },
                Expr::Float(text) => {
                    lemma_the_slice(text);
                },
                Expr::NonBase10Int { string, base, is_negative } => {
                    lemma_the_slice(string);
                },
                _ => {},
            }
        }
    }
    r
}

fn read_number<'a>(state: State<'a>) -> (r: Option<(Expr<'a>, State<'a>)>)
    requires
        state.wf(),
    ensures
        r is Some <==> at_number(state),
        match r {
            Some((e, s)) => {
                &&& s.extends(state)
                &&& s.offset > state.offset
                &&& s.line == state.line
                &&& is_number(e)
                &&& number_shape(e) is Some
                &&& number_at(state.input@, state.offset as int) == Some(
                    (number_shape(e)->0, s.offset as int),
                )
            },
            None => number_at(state.input@, state.offset as int) is None,
        },
{
    let negative: bool = match state.peek() {
        Some(b) => b == MINUS,
        None => false,
    };
    let first: State<'a> = if negative {
        state.advance()
    } else {
        state
    };
    let leading: u8 = match first.peek() {
        Some(b) => {
            if digit(b) {
                b
            } else {
                return None;
            }
        },
        None => {
            return None;
        },
    };
    proof {
        lemma_same_line(state.input@, state.offset as int, first.offset as int);
    }
    if leading == 48 {
        match first.peek_at(1) {
            Some(letter) => match base_letter(letter) {
                Some(base) => {
                    let digits_start = first.advance_by(2);
                    proof {
                        lemma_same_line(
                            state.input@,
                            first.offset as int,
                            digits_start.offset as int,
                        );
                    }
                    let end = take_digits_of_any_base(digits_start);
                    let string: &'a [u8] = slice_of(state.input, digits_start.offset, end.offset);
                    return Some(
                        (Expr::NonBase10Int { string, base, is_negative: negative }, end),
                    );
                },
                None => {},
            },
            None => {},
        }
    }
    let whole_end = take_digits(first);
    let mut end = whole_end;
    let mut is_float: bool = false;
    proof {
        lemma_digits_end_bounds(state.input@, first.offset as int);
        assert(whole_end.offset > first.offset);
    }
    // A fraction: a dot with a digit right after it.
    match (end.peek(), end.peek_at(1)) {
        (Some(dot), Some(after)) => {
            if dot == crate::ident::DOT && digit(after) {
                let fraction = end.advance();
                proof {
                    lemma_same_line(state.input@, end.offset as int, fraction.offset as int);
                    lemma_digits_end_bounds(state.input@, fraction.offset as int);
                }
                end = take_digits(fraction);
                is_float = true;
            }
        },
        _ => {},
    }
    let ghost with_fraction = end.offset as int;
    assert(with_fraction == fraction_end(state.input@, whole_end.offset as int));
    // An exponent: `e` or `E`, an optional sign, and a digit.
    match end.peek() {
        Some(e) => {
            if e == 101 || e == 69 {
                let after_e = end.advance();
                let after_sign = match after_e.peek() {
                    Some(sign) => {
                        if sign == MINUS || sign == 43 {
                            after_e.advance()
                        } else {
                            after_e
                        }
                    },
                    None => after_e,
                };
                match after_sign.peek() {
                    Some(d) => {
                        if digit(d) {
                            proof {
                                lemma_same_line(
                                    state.input@,
                                    end.offset as int,
                                    after_sign.offset as int,
                                );
                                lemma_digits_end_bounds(state.input@, after_sign.offset as int);
                            }
                            end = take_digits(after_sign);
                            is_float = true;
                        }
                    },
                    None => {},
                }
            }
        },
        None => {},
    }
    assert(end.offset == exponent_end(state.input@, with_fraction));
    let text: &'a [u8] = slice_of(state.input, state.offset, end.offset);
    if is_float {
        Some((Expr::Float(text), end))
    } else {
        Some((Expr::Num(text), end))
    }
}

/// The character that the letter after a backslash stands for.
pub open spec fn escape_of(letter: u8) -> Option<EscapedChar> {
    if letter == 110 {
        Some(EscapedChar::Newline)
    } else if letter == 116 {
        Some(EscapedChar::Tab)
    } else if letter == QUOTE {
        Some(EscapedChar::Quote)
    } else if letter == BACKSLASH {
        Some(EscapedChar::Backslash)
    } else if letter == 114 {
        Some(EscapedChar::CarriageReturn)
    } else {
        None
    }
}

fn escape_letter(letter: u8) -> (e: Option<EscapedChar>)
    ensures
        e == escape_of(letter),
{
    if letter == 110 {
        Some(EscapedChar::Newline)
    } else if letter == 116 {
        Some(EscapedChar::Tab)
    } else if letter == QUOTE {
        Some(EscapedChar::Quote)
    } else if letter == BACKSLASH {
        Some(EscapedChar::Backslash)
    } else if letter == 114 {
        Some(EscapedChar::CarriageReturn)
    } else {
        None
    }
}

/// Where the plain bytes of a string that start at `off` end: at the next
/// quote, backslash or line break, or at the end of the input.
pub open spec fn plain_end(input: Seq<u8>, off: int) -> int
    decreases input.len() - off,
{
    if 0 <= off < input.len() && input[off] != QUOTE && input[off] != BACKSLASH && input[off]
        != NEWLINE {
        plain_end(input, off + 1)
    } else {
        off
    }
}

pub proof fn lemma_plain_end_bounds(input: Seq<u8>, off: int)
    requires
        0 <= off <= input.len(),
    ensures
        off <= plain_end(input, off) <= input.len(),
    decreases input.len() - off,
{
    if off < input.len() {
        lemma_plain_end_bounds(input, off + 1);
    }
}

/// Consumes the bytes of a string up to the next quote, backslash or line
/// break, or to the end of the input.
fn take_plain<'a>(state: State<'a>) -> (s: State<'a>)
    requires
        state.wf(),
    ensures
        s.extends(state),
        s.line == state.line,
        s.offset == plain_end(state.input@, state.offset as int),
        s.offset < s.input@.len() ==> s.at_byte(QUOTE) || s.at_byte(BACKSLASH) || s.at_byte(
            NEWLINE,
        ),
{
    let mut cur = state;
    loop
        invariant_except_break
            plain_end(state.input@, cur.offset as int) == plain_end(
                state.input@,
                state.offset as int,
            ),
        invariant
            cur.extends(state),
            state.wf(),
            forall|k: int|
                state.offset <= k < cur.offset ==> {
                    let b = #[trigger] state.input@[k];
                    b != QUOTE && b != BACKSLASH && b != NEWLINE
                },
        ensures
            cur.offset == plain_end(state.input@, state.offset as int),
            cur.offset < cur.input@.len() ==> cur.at_byte(QUOTE) || cur.at_byte(BACKSLASH)
                || cur.at_byte(NEWLINE),
        decreases cur.input@.len() - cur.offset,
    {
        match cur.peek() {
            Some(b) => {
                if b == QUOTE || b == BACKSLASH || b == NEWLINE {
                    break ;
                } else {
                    cur = cur.advance();
                }
            },
            None => {
                break ;
            },
        }
    }
    proof {
        lemma_same_line(state.input@, state.offset as int, cur.offset as int);
    }
    cur
}

/// A piece of a string literal, with its text as a sequence of bytes.
pub enum SegmentShape {
    Plaintext(Seq<u8>),
    EscapedChar(EscapedChar),
}

pub open spec fn segment_shape(segment: StrSegment) -> SegmentShape {
    match segment {
        StrSegment::Plaintext(text) => SegmentShape::Plaintext(text@),
        StrSegment::EscapedChar(c) => SegmentShape::EscapedChar(c),
    }
}

pub open spec fn segment_shapes(segments: Seq<StrSegment>) -> Seq<SegmentShape> {
    segments.map_values(|segment: StrSegment| segment_shape(segment))
}

/// What reading the inside of a string comes to.
pub enum Segments {
    /// The string is closed: its pieces, and where it ends.
    Closed(Seq<SegmentShape>, int),
    /// The line or the input ends before the string does, here.
    Endless(int),
    /// An escape that is not known stands here.
    UnknownEscape(int),
}

/// The pieces of the string whose inside starts at `off`: runs of plain
/// bytes, and escapes, up to the closing quote.
pub open spec fn segments_at(input: Seq<u8>, off: int) -> Segments
    decreases input.len() - off,
{
    let p = plain_end(input, off);
    let lead = if p > off {
        seq![SegmentShape::Plaintext(input.subrange(off, p))]
    } else {
        Seq::empty()
    };
    if p < off || p >= input.len() {
        Segments::Endless(p)
    } else if input[p] == QUOTE {
        Segments::Closed(lead, p + 1)
    } else if input[p] == BACKSLASH {
        if p + 1 >= input.len() {
            Segments::Endless(p)
        } else {
            match escape_of(input[p + 1]) {
                None => Segments::UnknownEscape(p),
                Some(c) => match segments_at(input, p + 2) {
                    Segments::Closed(rest, end) => Segments::Closed(
                        lead.push(SegmentShape::EscapedChar(c)).add(rest),
                        end,
                    ),
                    other => other,
                },
            }
        }
    } else {
        Segments::Endless(p)
    }
}

/// Reads the pieces of a string from the cursor, which stands inside the
/// string, up to and including the closing quote.
fn segments<'a>(arena: &'a Arena, state: State<'a>) -> (r: Result<
    (List<'a, StrSegment<'a>>, State<'a>),
    (EString, State<'a>),
>)
    requires
        state.wf(),
    ensures
        match r {
            Ok((list, s)) => s.extends(state) && s.offset > state.offset && s.line == state.line
                && segments_at(state.input@, state.offset as int) == Segments::Closed(
                segment_shapes(list@),
                s.offset as int,
            ),
            Err((e, s)) => s.extends(state) && (match segments_at(
                state.input@,
                state.offset as int,
            ) {
                Segments::Closed(_, _) => false,
                Segments::Endless(at) => s.offset == at && e == EString::EndlessSingle(
                    s.line,
                    s.column,
                ),
                Segments::UnknownEscape(at) => s.offset == at && e == EString::UnknownEscape(
                    s.line,
                    s.column,
                ),
            }),
        },
    decreases state.input@.len() - state.offset,
{
    let plain_end = take_plain(state);
    let text: &'a [u8] = slice_of(state.input, state.offset, plain_end.offset);
    proof {
        assert(segment_shapes(List::<StrSegment>::Nil@) =~= Seq::empty());
    }
    match plain_end.peek() {
        None => Err((EString::EndlessSingle(plain_end.line, plain_end.column), plain_end)),
        Some(b) => {
            if b == QUOTE {
                let end = plain_end.advance();
                proof {
                    lemma_same_line(state.input@, plain_end.offset as int, end.offset as int);
                }
                if text.len() == 0 {
                    Ok((List::Nil, end))
                } else {
                    let list = List::cons(arena, StrSegment::Plaintext(text), List::Nil);
                    proof {
                        assert(segment_shapes(list@) =~= seq![SegmentShape::Plaintext(text@)]);
                    }
                    Ok((list, end))
                }
            } else if b == BACKSLASH {
                match plain_end.peek_at(1) {
                    None => Err(
                        (EString::EndlessSingle(plain_end.line, plain_end.column), plain_end),
                    ),
                    Some(letter) => match escape_letter(letter) {
                        None => Err(
                            (EString::UnknownEscape(plain_end.line, plain_end.column), plain_end),
                        ),
                        Some(escaped) => {
                            let after = plain_end.advance_by(2);
                            proof {
                                lemma_same_line(
                                    state.input@,
                                    plain_end.offset as int,
                                    after.offset as int,
                                );
                            }
                            match segments(arena, after) {
                                Ok((rest, end)) => {
                                    let with_escape = List::cons(
                                        arena,
                                        StrSegment::EscapedChar(escaped),
                                        rest,
                                    );
                                    proof {
                                        assert(segment_shapes(with_escape@) =~= seq![
                                            SegmentShape::EscapedChar(escaped),
                                        ].add(segment_shapes(rest@)));
                                    }
                                    if text.len() == 0 {
                                        proof {
                                            assert(Seq::<SegmentShape>::empty().push(
                                                SegmentShape::EscapedChar(escaped),
                                            ).add(segment_shapes(rest@)) =~= segment_shapes(
                                                with_escape@,
                                            ));
                                        }
                                        Ok((with_escape, end))
                                    } else {
                                        let list = List::cons(
                                            arena,
                                            StrSegment::Plaintext(text),
                                            with_escape,
                                        );
                                        proof {
                                            assert(segment_shapes(list@) =~= seq![
                                                SegmentShape::Plaintext(text@),
                                            ].push(SegmentShape::EscapedChar(escaped)).add(
                                                segment_shapes(rest@),
                                            ));
                                        }
                                        Ok((list, end))
                                    }
                                },
                                Err(e) => Err(e),
                            }
                        },
                    },
                }
            } else {
                Err((EString::EndlessSingle(plain_end.line, plain_end.column), plain_end))
            }
        },
    }
}

/// A string literal, with its text as sequences of bytes.
pub enum StrShape {
    PlainLine(Seq<u8>),
    Line(Seq<SegmentShape>),
}

pub open spec fn str_shape(lit: StrLiteral) -> StrShape {
    match lit {
        StrLiteral::PlainLine(text) => StrShape::PlainLine(text@),
        StrLiteral::Line(segments) => StrShape::Line(segment_shapes(segments@)),
    }
}

pub open spec fn segment_of_shape<'a>(shape: SegmentShape) -> StrSegment<'a> {
    match shape {
        SegmentShape::Plaintext(text) => StrSegment::Plaintext(the_slice(text)),
        SegmentShape::EscapedChar(c) => StrSegment::EscapedChar(c),
    }
}

/// The string literal of a shape: its texts are the slices that hold
/// them.
pub open spec fn str_literal<'a>(shape: StrShape) -> StrLiteral<'a> {
    match shape {
        StrShape::PlainLine(text) => StrLiteral::PlainLine(the_slice(text)),
        StrShape::Line(segments) => StrLiteral::Line(
            crate::arena::list_of(
                segments.map_values(|segment: SegmentShape| segment_of_shape(segment)),
            ),
        ),
    }
}

/// A string literal is the string literal of its shape.
pub proof fn lemma_str_literal(lit: StrLiteral)
    ensures
        str_literal(str_shape(lit)) == lit,
{
    match lit {
        StrLiteral::PlainLine(text) => {
            lemma_the_slice(text);
        },
        StrLiteral::Line(segments) => {
            let back = segment_shapes(segments@).map_values(
                |segment: SegmentShape| segment_of_shape(segment),
            );
            assert(back =~= segments@) by {
                assert forall|k: int| 0 <= k < segments@.len() implies back[k] == segments@[k] by {
                    match segments@[k] {
                        StrSegment::Plaintext(text) => {
                            lemma_the_slice(text);
                        },
                        StrSegment::EscapedChar(_) => {},
                    }
                }
            }
            crate::arena::lemma_list_of_view(segments);
        },
    }
}

/// What reading a string literal at the cursor comes to.
#[verifier::opaque]
pub open spec fn string_value<'a>(state: State<'a>) -> ParseResult<'a, StrLiteral<'a>, EString> {
    if !state.at_byte(QUOTE) {
        Err((Progress::NoProgress, EString::Open(state.line, state.column), state))
    } else {
        let p = plain_end(state.input@, state.offset + 1);
        match segments_at(state.input@, state.offset + 1) {
            Segments::Closed(segments, end) => Ok(
                (
                    Progress::MadeProgress,
                    str_literal(
                        if p < state.input@.len() && state.input@[p] == QUOTE {
                            StrShape::PlainLine(state.input@.subrange(state.offset + 1, p))
                        } else {
                            StrShape::Line(segments)
                        },
                    ),
                    state.at(end),
                ),
            ),
            Segments::Endless(at) => Err(
                (
                    Progress::MadeProgress,
                    EString::EndlessSingle(state.at(at).line, state.at(at).column),
                    state.at(at),
                ),
            ),
            Segments::UnknownEscape(at) => Err(
                (
                    Progress::MadeProgress,
                    EString::UnknownEscape(state.at(at).line, state.at(at).column),
                    state.at(at),
                ),
            ),
        }
    }
}

/// Reads a string literal: a quote, then plain bytes and the escapes
/// `\n`, `\t`, `\"`, `\\` and `\r`, then the closing quote on the same
/// line.
///
/// Fails without progress exactly when no quote stands at the cursor. A
/// string that is not closed on its line, or an unknown escape, is a
/// failure with progress, at the place that `segments_at` names. A string
/// without escapes is a `PlainLine` of the text between the quotes, and
/// any other a `Line` of the pieces that `segments_at` names.
pub fn string_literal<'a>(arena: &'a Arena, state: State<'a>) -> (r: ParseResult<
    'a,
    StrLiteral<'a>,
    EString,
>)
    requires
        state.wf(),
    ensures
        moves_on(r, state),
        r == string_value(state),
        (r matches Err((p, _, _)) && p is NoProgress) <==> !state.at_byte(QUOTE),
        r matches Ok((p, lit, s)) ==> p is MadeProgress && s.line == state.line,
        r matches Err((p, e, s)) ==> (p is NoProgress ==> e == EString::Open(
            state.line,
            state.column,
        )),
{
    reveal(string_value);
    let r = read_string(arena, state);
    proof {
        match r {
            Ok((_, lit, s)) => {
                lemma_str_literal(lit);
                lemma_state_at(state, s);
            },
            Err((_, _, s)) => {
                lemma_state_at(state, s);
            },
        }
    }
    r
}

fn read_string<'a>(arena: &'a Arena, state: State<'a>) -> (r: ParseResult<
    'a,
    StrLiteral<'a>,
    EString,
>)
    requires
        state.wf(),
    ensures
        moves_on(r, state),
        (r matches Err((p, _, _)) && p is NoProgress) <==> !state.at_byte(QUOTE),
        match r {
            Ok((p, lit, s)) => {
                &&& p is MadeProgress
                &&& s.line == state.line
                &&& state.at_byte(QUOTE)
                &&& str_shape(lit) == if state.input@[plain_end(state.input@, state.offset + 1)]
                    == QUOTE && plain_end(state.input@, state.offset + 1) < state.input@.len() {
                    StrShape::PlainLine(
                        state.input@.subrange(
                            state.offset + 1,
                            plain_end(state.input@, state.offset + 1),
                        ),
                    )
                } else {
                    StrShape::Line(segments_at(state.input@, state.offset + 1)->Closed_0)
                }
                &&& segments_at(state.input@, state.offset + 1) matches Segments::Closed(_, end)
                    && s.offset == end
            },
            Err((p, e, s)) => if p is NoProgress {
                e == EString::Open(state.line, state.column)
            } else {
                match segments_at(state.input@, state.offset + 1) {
                    Segments::Closed(_, _) => false,
                    Segments::Endless(at) => s.offset == at && e == EString::EndlessSingle(
                        s.line,
                        s.column,
                    ),
                    Segments::UnknownEscape(at) => s.offset == at && e == EString::UnknownEscape(
                        s.line,
                        s.column,
                    ),
                }
            },
        },
{
    match state.word1(QUOTE) {
        None => Err((Progress::NoProgress, EString::Open(state.line, state.column), state)),
        Some(inside) => {
            proof {
                lemma_same_line(state.input@, state.offset as int, inside.offset as int);
                lemma_plain_end_bounds(state.input@, inside.offset as int);
            }
            // Without an escape, the string is the text between the quotes.
            let plain_end = take_plain(inside);
            match plain_end.word1(QUOTE) {
                Some(end) => {
                    proof {
                        lemma_same_line(state.input@, plain_end.offset as int, end.offset as int);
                    }
                    let text: &'a [u8] = slice_of(state.input, inside.offset, plain_end.offset);
                    Ok((Progress::MadeProgress, StrLiteral::PlainLine(text), end))
                },
                None => match segments(arena, inside) {
                    Ok((list, end)) => Ok((Progress::MadeProgress, StrLiteral::Line(list), end)),
                    Err((e, s)) => Err((Progress::MadeProgress, e, s)),
                },
            }
        },
    }
}

} // verus!
