//! Where a text can be read both as an expression and as a pattern, and
//! the two readings agree: converting the expression gives the pattern.
//!
//! The laws here are about what is put together from parts: what stands
//! in parentheses, and a tag with its arguments. Each says that the whole
//! reads alike where its parts do. They reach as far as the two readings
//! agree, and no further:
//!
//! * in an argument, a minus that stands right before a number negates in
//!   an expression and is the sign of the number in a pattern;
//! * a field read from a variable is an expression and no pattern;
//! * an argument in parentheses bears, as an expression, the region of
//!   what stands inside them and, as a pattern, the region of the
//!   parentheses;
//! * where `=` or `:` follows, the expression goes on into a block of
//!   definitions.

use vstd::prelude::*;
use crate::arena::List;
use crate::ast::{Expr, Ident, Pattern};
use crate::blankspace::{blank_end, spaces_at};
use crate::errors::ParseResult;
use crate::expr::{
    either, loc_expr_at, loc_expr_in_parens_help_at, loc_function_arg_at, loc_function_args_at,
    loc_function_args_help_at, unary_negate_function_arg_at, OPEN_PAREN,
};
use crate::ident::{ident_at, ident_value, lemma_word_end_bounds, modules_end};
use crate::ident_expr::ident_etc_help_at;
use crate::pattern::{
    any_pattern_at, loc_ident_pattern_at, loc_pattern_at, loc_pattern_in_parens_at,
    tag_pattern_args_at,
};
use crate::record::sign_at;
use crate::region::Located;
use crate::state::State;
use crate::to_pattern::{pattern_of_expr, patterns_of_exprs};

verus! {

/// The white space that starts at `off` ends at `off` or after it, and
/// inside the text.
pub proof fn lemma_blank_end_bounds(input: Seq<u8>, off: int, in_comment: bool)
    requires
        0 <= off <= input.len(),
    ensures
        off <= blank_end(input, off, in_comment) <= input.len(),
    decreases input.len() - off,
{
    if off < input.len() {
        if in_comment {
            lemma_blank_end_bounds(input, off + 1, input[off] != crate::state::NEWLINE);
        } else if input[off] == crate::state::SPACE || input[off]
            == crate::blankspace::CARRIAGE_RETURN || input[off] == crate::state::NEWLINE {
            lemma_blank_end_bounds(input, off + 1, false);
        } else if input[off] == crate::blankspace::HASH {
            lemma_blank_end_bounds(input, off + 1, true);
        }
    }
}

/// The cursor at an offset inside the text of a cursor that is in order is
/// in order.
pub proof fn lemma_cursor_in_order<'a>(state: State<'a>, off: int)
    requires
        state.wf(),
        0 <= off <= state.input@.len(),
    ensures
        state.at(off).wf(),
        state.at(off).input == state.input,
        state.at(off).offset == off,
{
    reveal(State::at);
    let input = state.input@;
    assert(vstd::slice::spec_slice_len(state.input) == input.len());
    crate::state::lemma_position_grows(input, off, input.len() as int);
    crate::state::lemma_position_grows(input, 0, off);
    assert(crate::state::column_at(input, off) < u16::MAX);
}

/// White space that was read ends at the cursor it began at or after it;
/// white space that had to be there ends after it.
pub proof fn lemma_spaces_move_on<'a>(required: bool, min_indent: u16, state: State<'a>)
    requires
        state.wf(),
    ensures
        spaces_at(required, min_indent, state) matches Ok((_, _, s)) ==> state.reaches(s)
            && s.wf() && (required ==> state.leads_to(s)),
{
    reveal(spaces_at);
    lemma_blank_end_bounds(state.input@, state.offset as int, false);
    lemma_cursor_in_order(state, blank_end(state.input@, state.offset as int, false));
}

/// The module parts that start at `off` end at `off` or after it, and
/// inside the text.
pub proof fn lemma_modules_end_bounds(input: Seq<u8>, off: int)
    requires
        0 <= off <= input.len(),
    ensures
        off <= modules_end(input, off) <= input.len(),
    decreases input.len() - off,
{
    if crate::ident::module_part_at(input, off) && off < crate::ident::word_end(input, off + 2)
        <= input.len() {
        lemma_modules_end_bounds(input, crate::ident::word_end(input, off + 2));
    }
}

/// A tag that was read ends after the cursor it began at.
pub proof fn lemma_tag_moves_on<'a>(state: State<'a>)
    requires
        state.wf(),
    ensures
        ident_value(state) matches Some((id, s)) ==> (id is GlobalTag || id is PrivateTag
            ==> state.leads_to(s) && s.wf()),
{
    reveal(ident_value);
    let input = state.input@;
    let off = state.offset as int;
    if off < input.len() {
        lemma_word_end_bounds(input, off + 1);
        lemma_modules_end_bounds(input, crate::ident::word_end(input, off + 1));
        if let Some((_, end)) = ident_at(input, off) {
            if 0 <= end <= input.len() {
                lemma_cursor_in_order(state, end);
            }
        }
    }
}

/// The two readings of one text agree: both succeed and end at the same
/// cursor, and converting the expression gives the pattern.
pub open spec fn read_alike<'a, E1, E2>(
    as_expr: ParseResult<'a, Located<Expr<'a>>, E1>,
    as_pattern: ParseResult<'a, Located<Pattern<'a>>, E2>,
) -> bool {
    match (as_expr, as_pattern) {
        (Ok((_, e, s1)), Ok((_, p, s2))) => s1 == s2 && pattern_of_expr(e.value) == Some(p.value),
        _ => false,
    }
}

/// What stands in parentheses reads alike if what stands inside them
/// does: where, after the opening parenthesis and the white space that
/// follows it, the expression and the pattern agree, the expression in
/// parentheses converts to the pattern in parentheses, or both readings
/// fail at the same place for want of the closing parenthesis. The
/// parentheses themselves leave no trace in the pattern.
pub proof fn lemma_parens_read_alike<'a>(min_indent: u16, state: State<'a>)
    requires
        state.wf(),
        state.spec_word1(OPEN_PAREN) matches Some(s1) && spaces_at(false, min_indent, s1) matches Ok(
            (_, _, s2),
        ) && read_alike(loc_expr_at(min_indent, s2), loc_pattern_at(min_indent, s2)),
    ensures
        match (
            loc_expr_in_parens_help_at(min_indent, state),
            loc_pattern_in_parens_at(min_indent, state),
        ) {
            (Ok((_, e, s1)), Ok((_, p, s2))) => s1 == s2 && pattern_of_expr(e.value) == Some(
                p.value,
            ),
            (Err((p1, _, s1)), Err((p2, _, s2))) => p1 == p2 && s1 == s2,
            _ => false,
        },
{
    reveal_with_fuel(loc_expr_in_parens_help_at, 1);
    reveal_with_fuel(loc_pattern_in_parens_at, 1);
    let s1 = state.spec_word1(OPEN_PAREN)->0;
    lemma_cursor_in_order(state, state.offset + 1);
    lemma_spaces_move_on(false, min_indent, s1);
    if let Ok((_, before, s2)) = spaces_at(false, min_indent, s1) {
        if let (Ok((_, e, s3)), Ok((_, p, _))) = (
            loc_expr_at(min_indent, s2),
            loc_pattern_at(min_indent, s2),
        ) {
            if let Ok((_, after, _)) = spaces_at(false, min_indent, s3) {
                let e1 = crate::expr::spaced_before(before, e);
                let p1 = crate::pattern::pattern_spaced_before(before, p);
                assert(pattern_of_expr(e1.value) == Some(p1.value));
                let e2 = crate::expr::spaced_after(after, e1);
                let p2 = crate::pattern::pattern_spaced_after(after, p1);
                assert(pattern_of_expr(e2.value) == Some(p2.value));
                assert(pattern_of_expr(Expr::ParensAround(&e2.value)) == Some(p2.value));
            }
        }
    }
}

/// What stands as an argument at the cursor, read as an expression.
pub open spec fn argument_at<'a>(min_indent: u16, state: State<'a>) -> ParseResult<
    'a,
    Located<Expr<'a>>,
    crate::errors::SyntaxError<'a>,
> {
    either(
        unary_negate_function_arg_at(min_indent, state),
        loc_function_arg_at(min_indent, state),
    )
}

/// The argument at the cursor reads alike: read as an expression and read
/// as a pattern it ends at the same cursor, which is not before this one,
/// and lies in the same region, and converting the expression gives the
/// pattern; or no argument stands here, in either reading.
pub open spec fn argument_reads_alike<'a>(min_indent: u16, state: State<'a>) -> bool {
    match (argument_at(min_indent, state), any_pattern_at(min_indent, false, state)) {
        (Ok((_, e, s1)), Ok((_, p, s2))) => s1 == s2 && state.reaches(s1) && s1.wf() && e.region
            == p.region && pattern_of_expr(e.value) == Some(p.value),
        (Err((p1, _, _)), Err((p2, _, _))) => p1 is NoProgress && p2 is NoProgress,
        _ => false,
    }
}

/// Each of the arguments that follow the cursor reads alike, one after the
/// other: the first that stands after white space, then the next after
/// the white space that follows the first, and so on, as far as arguments
/// go.
pub open spec fn arguments_read_alike<'a>(min_indent: u16, state: State<'a>) -> bool
    decreases state.input@.len() - state.offset,
{
    match spaces_at(true, min_indent, state) {
        Err(_) => true,
        Ok((_, _, s1)) => argument_reads_alike(min_indent, s1) && (match argument_at(
            min_indent,
            s1,
        ) {
            Ok((_, _, s2)) => state.leads_to(s2) ==> arguments_read_alike(min_indent, s2),
            Err(_) => true,
        }),
    }
}

/// Arguments read alike if each of them does: the arguments of a function
/// and the arguments of a tag pattern are then as many, end at the same
/// cursor, and converting the expressions gives the patterns, white space
/// and regions included.
pub proof fn lemma_arguments_read_alike<'a>(min_indent: u16, state: State<'a>)
    requires
        state.wf(),
        arguments_read_alike(min_indent, state),
    ensures
        loc_function_args_at(min_indent, state) matches Ok((_, exprs, s1)) && tag_pattern_args_at(
            min_indent,
            state,
        ) matches Ok((_, patterns, s2)) && s1 == s2 && state.reaches(s1) && patterns_of_exprs(
            exprs,
        ) == Some(patterns),
    decreases state.input@.len() - state.offset,
{
    reveal_with_fuel(loc_function_args_at, 1);
    reveal_with_fuel(unary_negate_function_arg_at, 1);
    reveal_with_fuel(loc_function_arg_at, 1);
    reveal_with_fuel(tag_pattern_args_at, 1);
    reveal_with_fuel(any_pattern_at, 1);
    lemma_spaces_move_on(true, min_indent, state);
    let as_exprs = loc_function_args_at(min_indent, state);
    let as_patterns = tag_pattern_args_at(min_indent, state);
    match spaces_at(true, min_indent, state) {
        Err(_) => {
            assert(as_exprs matches Ok((_, l, s)) && l is Nil && s == state);
            assert(as_patterns matches Ok((_, l, s)) && l is Nil && s == state);
        },
        Ok((_, spaces, s1)) => {
            assert(state.reaches(s1) && s1.wf());
            assert(state.leads_to(s1));
            assert(argument_reads_alike(min_indent, s1));
            match (argument_at(min_indent, s1), any_pattern_at(min_indent, false, s1)) {
                (Ok((_, e, s2)), Ok((_, p, s2p))) => {
                    assert(s2 == s2p);
                    assert(state.leads_to(s2));
                    lemma_arguments_read_alike(min_indent, s2);
                    let head_e = crate::expr::spaced_before(spaces, e);
                    let head_p = crate::pattern::pattern_spaced_before(spaces, p);
                    assert(pattern_of_expr(head_e.value) == Some(head_p.value));
                    assert(head_e.region == head_p.region);
                    match (
                        loc_function_args_at(min_indent, s2),
                        tag_pattern_args_at(min_indent, s2),
                    ) {
                        (Ok((_, rest_e, end)), Ok((_, rest_p, end_p))) => {
                            assert(end == end_p);
                            assert(patterns_of_exprs(List::Cons(&head_e, &rest_e)) == Some(
                                List::Cons(&head_p, &rest_p),
                            ));
                            assert(state.reaches(end));
                            assert(as_exprs matches Ok((_, l, s)) && l == List::Cons(
                                &head_e,
                                &rest_e,
                            ) && s == end);
                            assert(as_patterns matches Ok((_, l, s)) && l == List::Cons(
                                &head_p,
                                &rest_p,
                            ) && s == end);
                        },
                        _ => {
                            assert(false);
                        },
                    }
                },
                (Err((p1, _, _)), Err((p2, _, _))) => {
                    assert(p1 is NoProgress && p2 is NoProgress);
                    assert(as_exprs matches Ok((_, l, s)) && l is Nil && s == state);
                    assert(as_patterns matches Ok((_, l, s)) && l is Nil && s == state);
                },
                _ => {
                    assert(false);
                },
            }
        },
    }
}

/// A tag with its arguments reads alike if its arguments do: where a tag
/// stands at the cursor, every argument after it reads alike, and neither
/// `=` nor `:` follows the arguments, reading the tag and what follows it
/// as an expression and converting gives the pattern that reading them as
/// a pattern gives, with the same cursor after it: the tag alone where no
/// argument follows, and else the tag applied to its arguments.
#[verifier::rlimit(80)]
pub proof fn lemma_application_reads_alike<'a>(min_indent: u16, state: State<'a>)
    requires
        state.wf(),
        ident_value(state) matches Some((id, s1)) && (id is GlobalTag || id is PrivateTag)
            && arguments_read_alike(min_indent, s1) && (loc_function_args_at(
            min_indent,
            s1,
        ) matches Ok((_, _, s2)) ==> sign_at(min_indent, s2) is None),
    ensures
        ident_etc_help_at(min_indent, state) matches Ok((_, e, end1)) && loc_ident_pattern_at(
            min_indent,
            true,
            state,
        ) matches Ok((_, p, end2)) && end1 == end2 && pattern_of_expr(e) == Some(p.value),
{
    reveal_with_fuel(ident_etc_help_at, 1);
    reveal_with_fuel(loc_ident_pattern_at, 1);
    reveal_with_fuel(loc_function_args_help_at, 1);
    reveal_with_fuel(loc_function_args_at, 1);
    reveal_with_fuel(tag_pattern_args_at, 1);
    let (id, s1) = ident_value(state)->0;
    lemma_tag_moves_on(state);
    lemma_arguments_read_alike(min_indent, s1);
    let raw = s1.text(state.offset as int, s1.offset as int);
    crate::to_pattern::lemma_ident_reads_alike(id, raw);
    if let (Ok((_, exprs, s2)), Ok((_, patterns, _))) = (
        loc_function_args_at(min_indent, s1),
        tag_pattern_args_at(min_indent, s1),
    ) {
        let f = Located {
            region: s1.span_from(state),
            value: crate::to_pattern::expr_of_ident(id),
        };
        let head = Located {
            region: s1.span_from(state),
            value: crate::to_pattern::pattern_of_ident(id, raw),
        };
        assert(exprs is Nil <==> patterns is Nil);
        assert(pattern_of_expr(Expr::Apply(&f, exprs, crate::ast::CalledVia::Space)) == Some(
            Pattern::Apply(&head, patterns),
        ));
        assert(state.leads_to(s1));
        assert(loc_function_args_help_at(min_indent, s1) matches Ok((_, a, s)) && a == exprs && s
            == s2);
        assert(sign_at(min_indent, s2) is None);
        assert(ident_etc_help_at(min_indent, state) is Ok);
        assert(loc_ident_pattern_at(min_indent, true, state) is Ok);
        if exprs is Nil {
            assert(ident_etc_help_at(min_indent, state)->Ok_0.2 == s1);
            assert(loc_ident_pattern_at(min_indent, true, state)->Ok_0.2 == s1);
        } else {
            assert(ident_etc_help_at(min_indent, state)->Ok_0.2 == s2);
            assert(loc_ident_pattern_at(min_indent, true, state)->Ok_0.2 == s2);
        }
    }
}

/// A number or a string stands at the cursor and can be read: a number
/// that bears no sign, or a string that is closed.
pub open spec fn at_plain_literal(state: State) -> bool {
    ||| state.offset < state.input@.len() && crate::ident::is_digit(
        state.input@[state.offset as int],
    )
    ||| state.at_byte(crate::literal::QUOTE) && (crate::literal::string_value(state) matches Ok(
        (_, _, s),
    ) && state.reaches(s) && s.wf())
}

/// A number that bears no sign, and a string, read alike as arguments.
pub proof fn lemma_literal_argument_reads_alike<'a>(min_indent: u16, state: State<'a>)
    requires
        state.wf(),
        at_plain_literal(state),
    ensures
        argument_reads_alike(min_indent, state),
        argument_at(min_indent, state) is Ok,
{
    reveal_with_fuel(unary_negate_function_arg_at, 1);
    reveal_with_fuel(loc_function_arg_at, 1);
    reveal_with_fuel(crate::expr::loc_parse_function_arg_at, 1);
    reveal_with_fuel(crate::expr::loc_function_arg_in_parens_etc_at, 1);
    reveal_with_fuel(crate::expr::loc_function_arg_in_parens_etc_help_at, 1);
    reveal_with_fuel(loc_expr_in_parens_help_at, 1);
    reveal(crate::expr::reserved_keyword_at);
    reveal(crate::literal::string_value);
    reveal(crate::literal::number_value);
    reveal_with_fuel(any_pattern_at, 1);
    reveal_with_fuel(loc_pattern_in_parens_at, 1);
    reveal_with_fuel(loc_ident_pattern_at, 1);
    reveal_with_fuel(crate::pattern::record_destructure_at, 1);
    reveal(ident_value);
    let input = state.input@;
    let off = state.offset as int;
    let first = input[off];
    assert(!state.at_word(seq![105u8, 102u8])) by {
        if state.at_word(seq![105u8, 102u8]) {
            assert(input.subrange(off, off + 2)[0] == 105);
        }
    }
    assert(!state.at_word(seq![116u8, 104u8, 101u8, 110u8])) by {
        if state.at_word(seq![116u8, 104u8, 101u8, 110u8]) {
            assert(input.subrange(off, off + 4)[0] == 116);
        }
    }
    assert(!state.at_word(seq![101u8, 108u8, 115u8, 101u8])) by {
        if state.at_word(seq![101u8, 108u8, 115u8, 101u8]) {
            assert(input.subrange(off, off + 4)[0] == 101);
        }
    }
    assert(!state.at_word(seq![119u8, 104u8, 101u8, 110u8])) by {
        if state.at_word(seq![119u8, 104u8, 101u8, 110u8]) {
            assert(input.subrange(off, off + 4)[0] == 119);
        }
    }
    assert(!state.at_word(seq![105u8, 115u8])) by {
        if state.at_word(seq![105u8, 115u8]) {
            assert(input.subrange(off, off + 2)[0] == 105);
        }
    }
    assert(!state.at_word(seq![97u8, 115u8])) by {
        if state.at_word(seq![97u8, 115u8]) {
            assert(input.subrange(off, off + 2)[0] == 97);
        }
    }
    if crate::ident::is_digit(first) {
        crate::literal::lemma_digits_end_bounds(input, off);
        if off + 2 <= input.len() {
            crate::literal::lemma_digits_end_bounds(input, off + 2);
        }
        let whole_end = crate::literal::digits_end(input, off);
        if whole_end + 1 <= input.len() {
            crate::literal::lemma_digits_end_bounds(input, whole_end + 1);
        }
        let with_fraction = crate::literal::fraction_end(input, whole_end);
        if with_fraction + 1 <= input.len() {
            crate::literal::lemma_digits_end_bounds(input, with_fraction + 1);
        }
        if with_fraction + 2 <= input.len() {
            crate::literal::lemma_digits_end_bounds(input, with_fraction + 2);
        }
        if let Some((_, end)) = crate::literal::number_at(input, off) {
            assert(off <= end <= input.len());
            lemma_cursor_in_order(state, end);
        }
    }
}

/// A word that stands at the cursor begins with the byte at the cursor.
pub proof fn lemma_word_begins(state: State, word: Seq<u8>)
    requires
        word.len() > 0,
        state.at_word(word),
    ensures
        state.offset < state.input@.len(),
        state.input@[state.offset as int] == word[0],
{
    assert(state.input@.subrange(state.offset as int, state.offset + word.len())[0] == word[0]);
}

/// A tag without arguments reads alike as an argument.
pub proof fn lemma_tag_argument_reads_alike<'a>(min_indent: u16, state: State<'a>)
    requires
        state.wf(),
        ident_value(state) matches Some((id, _)) && (id is GlobalTag || id is PrivateTag),
    ensures
        argument_reads_alike(min_indent, state),
        argument_at(min_indent, state) is Ok,
{
    reveal_with_fuel(unary_negate_function_arg_at, 1);
    reveal_with_fuel(loc_function_arg_at, 1);
    reveal_with_fuel(crate::expr::loc_parse_function_arg_at, 1);
    reveal_with_fuel(crate::expr::loc_function_arg_in_parens_etc_at, 1);
    reveal_with_fuel(crate::expr::loc_function_arg_in_parens_etc_help_at, 1);
    reveal_with_fuel(loc_expr_in_parens_help_at, 1);
    reveal_with_fuel(crate::closure::closure_at, 1);
    reveal_with_fuel(crate::closure::closure_help_at, 1);
    reveal_with_fuel(crate::record::record_literal_at, 1);
    reveal_with_fuel(crate::record::record_literal_help_at, 1);
    reveal_with_fuel(crate::record::record_help_at, 1);
    reveal_with_fuel(crate::expr::list_literal_at, 1);
    reveal_with_fuel(crate::expr::list_literal_help_at, 1);
    reveal_with_fuel(crate::expr::unary_op_at, 1);
    reveal_with_fuel(crate::expr::unary_op_help_at, 1);
    reveal_with_fuel(crate::when::expr_at, 1);
    reveal_with_fuel(crate::when::expr_help_at, 1);
    reveal_with_fuel(crate::conditional::if_expr_at, 1);
    reveal_with_fuel(crate::conditional::if_expr_help_at, 1);
    reveal(crate::expr::reserved_keyword_at);
    reveal(crate::literal::string_value);
    reveal(crate::literal::number_value);
    reveal_with_fuel(any_pattern_at, 1);
    reveal_with_fuel(loc_pattern_in_parens_at, 1);
    reveal_with_fuel(loc_ident_pattern_at, 1);
    reveal(ident_value);
    let input = state.input@;
    let off = state.offset as int;
    let first = input[off];
    assert(first == crate::ident::AT || crate::ident::is_upper(first));
    if state.at_word(seq![105u8, 102u8]) {
        lemma_word_begins(state, seq![105u8, 102u8]);
    }
    if state.at_word(seq![116u8, 104u8, 101u8, 110u8]) {
        lemma_word_begins(state, seq![116u8, 104u8, 101u8, 110u8]);
    }
    if state.at_word(seq![101u8, 108u8, 115u8, 101u8]) {
        lemma_word_begins(state, seq![101u8, 108u8, 115u8, 101u8]);
    }
    if state.at_word(seq![119u8, 104u8, 101u8, 110u8]) {
        lemma_word_begins(state, seq![119u8, 104u8, 101u8, 110u8]);
    }
    if state.at_word(seq![105u8, 115u8]) {
        lemma_word_begins(state, seq![105u8, 115u8]);
    }
    if state.at_word(seq![97u8, 115u8]) {
        lemma_word_begins(state, seq![97u8, 115u8]);
    }
    if state.at_word(crate::state::word_when()) {
        lemma_word_begins(state, crate::state::word_when());
    }
    if state.at_word(crate::state::word_if()) {
        lemma_word_begins(state, crate::state::word_if());
    }
    lemma_tag_moves_on(state);
    let (id, s) = ident_value(state)->0;
    crate::to_pattern::lemma_ident_reads_alike(
        id,
        s.text(state.offset as int, s.offset as int),
    );
}

/// A variable stands at the cursor, by its own name and with no field
/// read from it: a lower-case word that is not reserved, without a dot and
/// a field after it.
pub open spec fn at_plain_variable(state: State) -> bool {
    &&& state.offset < state.input@.len()
    &&& crate::ident::is_lower(state.input@[state.offset as int])
    &&& !crate::ident::is_keyword(crate::ident::word_at(state.input@, state.offset as int))
    &&& !crate::ident::field_at(
        state.input@,
        crate::ident::word_end(state.input@, state.offset + 1),
    )
}

/// Where a variable stands, no reserved word stands: a reserved word at
/// the start of the variable's name goes on as the name does.
pub proof fn lemma_variable_is_no_keyword(state: State, word: Seq<u8>)
    requires
        state.wf(),
        at_plain_variable(state),
        crate::ident::is_keyword(word),
        state.at_word(word),
    ensures
        state.offset + word.len() < state.input@.len(),
        crate::ident::is_ident_byte(state.input@[state.offset + word.len()]),
{
    reveal_with_fuel(crate::ident::word_end, 6);
    let input = state.input@;
    let off = state.offset as int;
    let part = input.subrange(off, off + word.len());
    assert(part == word);
    assert(part[0] == word[0] && part[1] == word[1]);
    if word.len() == 4 {
        assert(part[2] == word[2] && part[3] == word[3]);
    }
    if !(off + word.len() < input.len() && crate::ident::is_ident_byte(input[off + word.len()])) {
        assert(crate::ident::word_end(input, off + 1) == off + word.len());
        assert(crate::ident::word_at(input, off) == word);
    }
}

/// A variable without fields reads alike as an argument.
pub proof fn lemma_variable_argument_reads_alike<'a>(min_indent: u16, state: State<'a>)
    requires
        state.wf(),
        at_plain_variable(state),
    ensures
        argument_reads_alike(min_indent, state),
        argument_at(min_indent, state) is Ok,
{
    reveal_with_fuel(unary_negate_function_arg_at, 1);
    reveal_with_fuel(loc_function_arg_at, 1);
    reveal_with_fuel(crate::expr::loc_parse_function_arg_at, 1);
    reveal_with_fuel(crate::expr::loc_function_arg_in_parens_etc_at, 1);
    reveal_with_fuel(crate::expr::loc_function_arg_in_parens_etc_help_at, 1);
    reveal_with_fuel(loc_expr_in_parens_help_at, 1);
    reveal_with_fuel(crate::closure::closure_at, 1);
    reveal_with_fuel(crate::closure::closure_help_at, 1);
    reveal_with_fuel(crate::record::record_literal_at, 1);
    reveal_with_fuel(crate::record::record_literal_help_at, 1);
    reveal_with_fuel(crate::record::record_help_at, 1);
    reveal_with_fuel(crate::expr::list_literal_at, 1);
    reveal_with_fuel(crate::expr::list_literal_help_at, 1);
    reveal_with_fuel(crate::expr::unary_op_at, 1);
    reveal_with_fuel(crate::expr::unary_op_help_at, 1);
    reveal_with_fuel(crate::when::expr_at, 1);
    reveal_with_fuel(crate::when::expr_help_at, 1);
    reveal_with_fuel(crate::conditional::if_expr_at, 1);
    reveal_with_fuel(crate::conditional::if_expr_help_at, 1);
    reveal(crate::expr::reserved_keyword_at);
    reveal(crate::literal::string_value);
    reveal(crate::literal::number_value);
    reveal(spaces_at);
    reveal_with_fuel(any_pattern_at, 1);
    reveal_with_fuel(loc_pattern_in_parens_at, 1);
    reveal_with_fuel(loc_ident_pattern_at, 1);
    reveal(ident_value);
    let input = state.input@;
    let off = state.offset as int;
    if state.at_word(seq![105u8, 102u8]) {
        lemma_variable_is_no_keyword(state, seq![105u8, 102u8]);
        lemma_cursor_in_order(state, off + 2);
    }
    if state.at_word(seq![116u8, 104u8, 101u8, 110u8]) {
        lemma_variable_is_no_keyword(state, seq![116u8, 104u8, 101u8, 110u8]);
        lemma_cursor_in_order(state, off + 4);
    }
    if state.at_word(seq![101u8, 108u8, 115u8, 101u8]) {
        lemma_variable_is_no_keyword(state, seq![101u8, 108u8, 115u8, 101u8]);
        lemma_cursor_in_order(state, off + 4);
    }
    if state.at_word(seq![119u8, 104u8, 101u8, 110u8]) {
        lemma_variable_is_no_keyword(state, seq![119u8, 104u8, 101u8, 110u8]);
        lemma_cursor_in_order(state, off + 4);
    }
    if state.at_word(seq![105u8, 115u8]) {
        lemma_variable_is_no_keyword(state, seq![105u8, 115u8]);
        lemma_cursor_in_order(state, off + 2);
    }
    if state.at_word(seq![97u8, 115u8]) {
        lemma_variable_is_no_keyword(state, seq![97u8, 115u8]);
        lemma_cursor_in_order(state, off + 2);
    }
    lemma_word_end_bounds(input, off + 1);
    let name_end = crate::ident::word_end(input, off + 1);
    lemma_cursor_in_order(state, name_end);
    let word = crate::ident::word_at(input, off);
    let names = seq![word].add(crate::ident::field_names(input, name_end));
    assert(names =~= seq![word]);
    let slices = names.map_values(|part: Seq<u8>| crate::state::the_slice::<u8>(part));
    reveal_with_fuel(crate::arena::list_of, 3);
    assert(slices.len() == 1);
    assert(slices.drop_first().len() == 0);
    let rest = crate::arena::list_of(slices.drop_first());
    assert(rest == List::<&[u8]>::Nil);
    assert(rest@.len() == 0);
    assert(crate::arena::list_of(slices) == List::Cons(&slices[0], &rest));
    assert(List::Cons(&slices[0], &rest)@ =~= seq![slices[0]].add(rest@));
    assert(crate::arena::list_of(slices)@.len() == 1);
    if let Some((id, s)) = ident_value(state) {
        assert(s == state.at(name_end));
        assert(id matches Ident::Access { module_name, parts } && parts@.len() == 1);
        crate::to_pattern::lemma_ident_reads_alike(
            id,
            s.text(state.offset as int, s.offset as int),
        );
    }
}

} // verus!
