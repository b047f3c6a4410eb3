//! Identifiers: variables, tags, qualified names and field accesses.

use vstd::prelude::*;
use crate::arena::{Arena, List};
use crate::ast::Ident;
use crate::blankspace::slice_of;
use crate::state::State;

verus! {

pub open spec fn is_lower(b: u8) -> bool {
    97 <= b <= 122
}

pub open spec fn is_upper(b: u8) -> bool {
    65 <= b <= 90
}

pub open spec fn is_digit(b: u8) -> bool {
    48 <= b <= 57
}

/// A byte that may stand inside an identifier, after its first byte.
pub open spec fn is_ident_byte(b: u8) -> bool {
    is_lower(b) || is_upper(b) || is_digit(b)
}

pub fn lower(b: u8) -> (r: bool)
    ensures
        r == is_lower(b),
{
    97 <= b && b <= 122
}

pub fn upper(b: u8) -> (r: bool)
    ensures
        r == is_upper(b),
{
    65 <= b && b <= 90
}

pub fn digit(b: u8) -> (r: bool)
    ensures
        r == is_digit(b),
{
    48 <= b && b <= 57
}

pub fn ident_byte(b: u8) -> (r: bool)
    ensures
        r == is_ident_byte(b),
{
    lower(b) || upper(b) || digit(b)
}

pub const DOT: u8 = 46;

pub const AT: u8 = 64;

/// The reserved words, which are no identifiers.
pub open spec fn is_keyword(word: Seq<u8>) -> bool {
    ||| word == seq![105u8, 102u8]
    ||| word == seq![116u8, 104u8, 101u8, 110u8]
    ||| word == seq![101u8, 108u8, 115u8, 101u8]
    ||| word == seq![119u8, 104u8, 101u8, 110u8]
    ||| word == seq![105u8, 115u8]
    ||| word == seq![97u8, 115u8]
}

/// Decides `is_keyword`.
pub fn keyword_text(word: &[u8]) -> (r: bool)
    ensures
        r == is_keyword(word@),
{
    let n: usize = word.len();
    if n == 2 {
        let a: u8 = word[0];
        let b: u8 = word[1];
        let r = (a == 105 && b == 102) || (a == 105 && b == 115) || (a == 97 && b == 115);
        proof {
            assert(word@ =~= seq![a, b]);
            assert(seq![105u8, 102u8][0] == 105 && seq![105u8, 102u8][1] == 102);
            assert(seq![105u8, 115u8][0] == 105 && seq![105u8, 115u8][1] == 115);
            assert(seq![97u8, 115u8][0] == 97 && seq![97u8, 115u8][1] == 115);
        }
        r
    } else if n == 4 {
        let a: u8 = word[0];
        let b: u8 = word[1];
        let c: u8 = word[2];
        let d: u8 = word[3];
        let r = (a == 116 && b == 104 && c == 101 && d == 110) || (a == 101 && b == 108 && c == 115
            && d == 101) || (a == 119 && b == 104 && c == 101 && d == 110);
        proof {
            assert(word@ =~= seq![a, b, c, d]);
            let t = seq![116u8, 104u8, 101u8, 110u8];
            let e = seq![101u8, 108u8, 115u8, 101u8];
            let w = seq![119u8, 104u8, 101u8, 110u8];
            assert(t[0] == 116 && t[1] == 104 && t[2] == 101 && t[3] == 110);
            assert(e[0] == 101 && e[1] == 108 && e[2] == 115 && e[3] == 101);
            assert(w[0] == 119 && w[1] == 104 && w[2] == 101 && w[3] == 110);
        }
        r
    } else {
        proof {
            assert(seq![105u8, 102u8].len() == 2);
            assert(seq![116u8, 104u8, 101u8, 110u8].len() == 4);
        }
        false
    }
}

/// Where the run of identifier bytes that starts at `off` ends.
pub open spec fn word_end(input: Seq<u8>, off: int) -> int
    decreases input.len() - off,
{
    if 0 <= off < input.len() && is_ident_byte(input[off]) {
        word_end(input, off + 1)
    } else {
        off
    }
}

/// The word that starts at `off`: a first byte, then identifier bytes.
pub open spec fn word_at(input: Seq<u8>, off: int) -> Seq<u8> {
    input.subrange(off, word_end(input, off + 1))
}

pub proof fn lemma_word_end_bounds(input: Seq<u8>, off: int)
    requires
        0 <= off <= input.len(),
    ensures
        off <= word_end(input, off) <= input.len(),
        forall|k: int| off <= k < word_end(input, off) ==> is_ident_byte(#[trigger] input[k]),
    decreases input.len() - off,
{
    if off < input.len() && is_ident_byte(input[off]) {
        lemma_word_end_bounds(input, off + 1);
    }
}

/// Consumes the first byte and the identifier bytes that follow it.
pub fn take_word<'a>(state: State<'a>) -> (s: State<'a>)
    requires
        state.wf(),
        state.offset < state.input@.len(),
    ensures
        s.extends(state),
        s.offset == word_end(state.input@, state.offset + 1),
        s.offset > state.offset,
{
    let mut cur = state.advance();
    loop
        invariant_except_break
            word_end(state.input@, cur.offset as int) == word_end(state.input@, state.offset + 1),
        invariant
            cur.extends(state),
            cur.offset > state.offset,
        ensures
            cur.offset == word_end(state.input@, state.offset + 1),
        decreases cur.input@.len() - cur.offset,
    {
        match cur.peek() {
            Some(b) => {
                if ident_byte(b) {
                    cur = cur.advance();
                } else {
                    break ;
                }
            },
            None => {
                break ;
            },
        }
    }
    cur
}

/// A variable or field name starts at the cursor: a lower-case letter,
/// then letters and digits, the whole not being a reserved word.
pub open spec fn at_lowercase_ident(state: State) -> bool {
    state.offset < state.input@.len() && is_lower(state.input@[state.offset as int])
        && !is_keyword(word_at(state.input@, state.offset as int))
}

/// The lower-case identifier at the cursor, with the cursor after it.
pub open spec fn lowercase_at<'a>(state: State<'a>) -> Option<(&'a [u8], State<'a>)> {
    if at_lowercase_ident(state) {
        Some(
            (
                state.text(state.offset as int, word_end(state.input@, state.offset + 1)),
                state.at(word_end(state.input@, state.offset + 1)),
            ),
        )
    } else {
        None
    }
}

/// The upper-case identifier at the cursor, with the cursor after it.
pub open spec fn uppercase_at<'a>(state: State<'a>) -> Option<(&'a [u8], State<'a>)> {
    if at_uppercase_ident(state) {
        Some(
            (
                state.text(state.offset as int, word_end(state.input@, state.offset + 1)),
                state.at(word_end(state.input@, state.offset + 1)),
            ),
        )
    } else {
        None
    }
}

/// Reads a lower-case identifier: `[a-z][A-Za-z0-9]*`, but no reserved
/// word.
pub fn lowercase_ident<'a>(state: State<'a>) -> (r: Option<(&'a [u8], State<'a>)>)
    requires
        state.wf(),
    ensures
        r is Some <==> at_lowercase_ident(state),
        r == lowercase_at(state),
        match r {
            Some((name, s)) => s.extends(state) && s.offset > state.offset && name@ == word_at(
                state.input@,
                state.offset as int,
            ) && s.offset == state.offset + name@.len() && s.line == state.line && s.offset
                == word_end(state.input@, state.offset + 1),
            None => true,
        },
{
    match state.peek() {
        Some(b) => {
            if lower(b) {
                let s = take_word(state);
                let name: &'a [u8] = slice_of(state.input, state.offset, s.offset);
                if keyword_text(name) {
                    None
                } else {
                    proof {
                        lemma_word_line(state, s);
                        crate::state::lemma_state_at(state, s);
                    }
                    Some((name, s))
                }
            } else {
                None
            }
        },
        None => None,
    }
}

/// A word lies on one line.
pub proof fn lemma_word_line(state: State, s: State)
    requires
        state.wf(),
        s.extends(state),
        state.offset < state.input@.len(),
        state.input@[state.offset as int] != crate::state::NEWLINE,
        s.offset == word_end(state.input@, state.offset + 1),
    ensures
        s.line == state.line,
        s.column == state.column + (s.offset - state.offset),
{
    lemma_word_end_bounds(state.input@, state.offset + 1);
    crate::state::lemma_same_line(state.input@, state.offset as int, s.offset as int);
}

/// A tag or module name starts at the cursor: an upper-case letter.
pub open spec fn at_uppercase_ident(state: State) -> bool {
    state.offset < state.input@.len() && is_upper(state.input@[state.offset as int])
}

/// Reads an upper-case identifier: `[A-Z][A-Za-z0-9]*`.
pub fn uppercase_ident<'a>(state: State<'a>) -> (r: Option<(&'a [u8], State<'a>)>)
    requires
        state.wf(),
    ensures
        r is Some <==> at_uppercase_ident(state),
        r == uppercase_at(state),
        match r {
            Some((name, s)) => s.extends(state) && s.offset > state.offset && name@ == word_at(
                state.input@,
                state.offset as int,
            ) && s.offset == state.offset + name@.len() && s.line == state.line && s.offset
                == word_end(state.input@, state.offset + 1),
            None => true,
        },
{
    match state.peek() {
        Some(b) => {
            if upper(b) {
                let s = take_word(state);
                let name: &'a [u8] = slice_of(state.input, state.offset, s.offset);
                proof {
                    lemma_word_line(state, s);
                    crate::state::lemma_state_at(state, s);
                }
                Some((name, s))
            } else {
                None
            }
        },
        None => None,
    }
}

/// An identifier is in order if it has something to name: an access names
/// a variable at least.
pub open spec fn ident_ok(ident: Ident) -> bool {
    match ident {
        Ident::Access { module_name, parts } => parts@.len() >= 1,
        _ => true,
    }
}

/// A dot with a lower-case identifier right after it stands at `off`.
pub open spec fn field_at(input: Seq<u8>, off: int) -> bool {
    0 <= off && off + 1 < input.len() && input[off] == DOT && is_lower(input[off + 1])
        && !is_keyword(word_at(input, off + 1))
}

/// A dot with an upper-case identifier right after it stands at `off`.
pub open spec fn module_part_at(input: Seq<u8>, off: int) -> bool {
    0 <= off && off + 1 < input.len() && input[off] == DOT && is_upper(input[off + 1])
}

/// Where the fields `.a.b.c` that start at `off` end.
pub open spec fn fields_end(input: Seq<u8>, off: int) -> int
    decreases input.len() - off,
{
    if field_at(input, off) && off < word_end(input, off + 2) <= input.len() {
        fields_end(input, word_end(input, off + 2))
    } else {
        off
    }
}

/// The names of the fields `.a.b.c` that start at `off`.
pub open spec fn field_names(input: Seq<u8>, off: int) -> Seq<Seq<u8>>
    decreases input.len() - off,
{
    if field_at(input, off) && off < word_end(input, off + 2) <= input.len() {
        seq![word_at(input, off + 1)].add(field_names(input, word_end(input, off + 2)))
    } else {
        Seq::empty()
    }
}

/// Where the module parts `.Foo.Bar` that start at `off` end.
pub open spec fn modules_end(input: Seq<u8>, off: int) -> int
    decreases input.len() - off,
{
    if module_part_at(input, off) && off < word_end(input, off + 2) <= input.len() {
        modules_end(input, word_end(input, off + 2))
    } else {
        off
    }
}

/// The texts that a sequence of slices holds.
pub open spec fn texts_of(parts: Seq<&[u8]>) -> Seq<Seq<u8>> {
    parts.map_values(|part: &[u8]| part@)
}

/// An identifier of some kind starts at the cursor.
pub open spec fn at_ident(state: State) -> bool {
    ||| at_lowercase_ident(state)
    ||| at_uppercase_ident(state)
    ||| (state.at_byte(AT) && state.offset + 1 < state.input@.len() && is_upper(
        state.input@[state.offset + 1],
    ))
    ||| (state.at_byte(DOT) && state.offset + 1 < state.input@.len() && is_lower(
        state.input@[state.offset + 1],
    ) && !is_keyword(word_at(state.input@, state.offset + 1)))
}

/// Reads the fields `.a.b.c` that follow a variable, as far as they go:
/// each is a dot with a lower-case identifier right after it.
pub fn field_chain<'a>(arena: &'a Arena, state: State<'a>) -> (r: (List<'a, &'a [u8]>, State<'a>))
    requires
        state.wf(),
    ensures
        r == field_chain_at(state),
        r.1.extends(state),
        r.1.line == state.line,
        r.0@.len() == 0 <==> r.1.offset == state.offset,
        r.0@.len() == 0 <==> !field_at(state.input@, state.offset as int),
        r.0@.len() >= 1 ==> r.1.offset > state.offset,
{
    reveal(field_chain_at);
    let r = read_fields(arena, state);
    proof {
        let slices = texts_of(r.0@).map_values(
            |part: Seq<u8>| crate::state::the_slice::<u8>(part),
        );
        assert(slices =~= r.0@) by {
            assert forall|k: int| 0 <= k < r.0@.len() implies slices[k] == r.0@[k] by {
                crate::state::lemma_the_slice(r.0@[k]);
            }
        }
        crate::arena::lemma_list_of_view(r.0);
        crate::state::lemma_state_at(state, r.1);
    }
    r
}

fn read_fields<'a>(arena: &'a Arena, state: State<'a>) -> (r: (List<'a, &'a [u8]>, State<'a>))
    requires
        state.wf(),
    ensures
        r.1.extends(state),
        r.1.line == state.line,
        r.1.offset == fields_end(state.input@, state.offset as int),
        texts_of(r.0@) == field_names(state.input@, state.offset as int),
        r.0@.len() == 0 <==> r.1.offset == state.offset,
        r.0@.len() == 0 <==> !field_at(state.input@, state.offset as int),
    decreases state.input@.len() - state.offset,
{
    match state.word1(DOT) {
        Some(after_dot) => match lowercase_ident(after_dot) {
            Some((name, s)) => {
                proof {
                    crate::state::lemma_same_line(
                        state.input@,
                        state.offset as int,
                        after_dot.offset as int,
                    );
                    lemma_word_end_bounds(state.input@, state.offset + 2);
                }
                let (rest, end) = read_fields(arena, s);
                let fields = List::cons(arena, name, rest);
                proof {
                    assert(texts_of(fields@) =~= seq![name@].add(texts_of(rest@)));
                }
                (fields, end)
            },
            None => {
                proof {
                    assert(texts_of(List::<&[u8]>::Nil@) =~= Seq::empty());
                }
                (List::Nil, state)
            },
        },
        None => {
            proof {
                assert(texts_of(List::<&[u8]>::Nil@) =~= Seq::empty());
            }
            (List::Nil, state)
        },
    }
}

/// Reads the rest of a qualified name after a module part: further module
/// parts, each a dot with an upper-case identifier right after it.
pub fn module_chain<'a>(state: State<'a>) -> (s: State<'a>)
    requires
        state.wf(),
    ensures
        s.extends(state),
        s.line == state.line,
        s.offset == modules_end(state.input@, state.offset as int),
    decreases state.input@.len() - state.offset,
{
    match state.word1(DOT) {
        Some(after_dot) => match uppercase_ident(after_dot) {
            Some((_, s)) => {
                proof {
                    crate::state::lemma_same_line(
                        state.input@,
                        state.offset as int,
                        after_dot.offset as int,
                    );
                    lemma_word_end_bounds(state.input@, state.offset + 2);
                }
                module_chain(s)
            },
            None => state,
        },
        None => state,
    }
}

/// What the identifier that starts at `off` is read as, and where it
/// ends: the kind, the texts it holds, and the end.
pub enum IdentShape {
    GlobalTag(Seq<u8>),
    PrivateTag(Seq<u8>),
    Access { module_name: Seq<u8>, parts: Seq<Seq<u8>> },
    AccessorFunction(Seq<u8>),
    Malformed(Seq<u8>),
}

pub open spec fn shape_of(id: Ident) -> IdentShape {
    match id {
        Ident::GlobalTag(name) => IdentShape::GlobalTag(name@),
        Ident::PrivateTag(name) => IdentShape::PrivateTag(name@),
        Ident::Access { module_name, parts } => IdentShape::Access {
            module_name: module_name@,
            parts: texts_of(parts@),
        },
        Ident::AccessorFunction(name) => IdentShape::AccessorFunction(name@),
        Ident::Malformed(text) => IdentShape::Malformed(text@),
    }
}

/// The identifier that starts at `off`, and where it ends, if one starts
/// there:
///
/// * `@Name` is a private tag, `.name` an accessor function;
/// * `name` with any fields `.a.b` after it is an access without a module;
/// * `Name` alone is a global tag;
/// * `Mod.Ule.name` with any fields after it is an access with the module
///   `Mod.Ule`;
/// * several upper-case parts without a variable after them are malformed.
pub open spec fn ident_at(input: Seq<u8>, off: int) -> Option<(IdentShape, int)> {
    if off < 0 || off >= input.len() {
        None
    } else if input[off] == AT {
        if off + 1 < input.len() && is_upper(input[off + 1]) {
            Some((IdentShape::PrivateTag(word_at(input, off)), word_end(input, off + 1)))
        } else {
            None
        }
    } else if input[off] == DOT {
        if off + 1 < input.len() && is_lower(input[off + 1]) && !is_keyword(
            word_at(input, off + 1),
        ) {
            Some((IdentShape::AccessorFunction(word_at(input, off + 1)), word_end(input, off + 2)))
        } else {
            None
        }
    } else if is_lower(input[off]) {
        if is_keyword(word_at(input, off)) {
            None
        } else {
            let name_end = word_end(input, off + 1);
            Some(
                (
                    IdentShape::Access {
                        module_name: Seq::empty(),
                        parts: seq![word_at(input, off)].add(field_names(input, name_end)),
                    },
                    fields_end(input, name_end),
                ),
            )
        }
    } else if is_upper(input[off]) {
        let first_end = word_end(input, off + 1);
        let module_end = modules_end(input, first_end);
        if field_at(input, module_end) {
            let name_end = word_end(input, module_end + 2);
            Some(
                (
                    IdentShape::Access {
                        module_name: input.subrange(off, module_end),
                        parts: seq![word_at(input, module_end + 1)].add(
                            field_names(input, name_end),
                        ),
                    },
                    fields_end(input, name_end),
                ),
            )
        } else if module_end == first_end {
            Some((IdentShape::GlobalTag(word_at(input, off)), first_end))
        } else {
            Some((IdentShape::Malformed(input.subrange(off, module_end)), module_end))
        }
    } else {
        None
    }
}

/// The identifier of a shape: its texts are the slices that hold them.
pub open spec fn ident_of_shape<'a>(shape: IdentShape) -> Ident<'a> {
    match shape {
        IdentShape::GlobalTag(name) => Ident::GlobalTag(crate::state::the_slice(name)),
        IdentShape::PrivateTag(name) => Ident::PrivateTag(crate::state::the_slice(name)),
        IdentShape::Access { module_name, parts } => Ident::Access {
            module_name: crate::state::the_slice(module_name),
            parts: crate::arena::list_of(
                parts.map_values(|part: Seq<u8>| crate::state::the_slice::<u8>(part)),
            ),
        },
        IdentShape::AccessorFunction(name) => Ident::AccessorFunction(
            crate::state::the_slice(name),
        ),
        IdentShape::Malformed(text) => Ident::Malformed(crate::state::the_slice(text)),
    }
}

/// An identifier is the identifier of its shape.
pub proof fn lemma_ident_of_shape(id: Ident)
    ensures
        ident_of_shape(shape_of(id)) == id,
{
    match id {
        Ident::GlobalTag(name) => {
            crate::state::lemma_the_slice(name);
        },
        Ident::PrivateTag(name) => {
            crate::state::lemma_the_slice(name);
        },
        Ident::Access { module_name, parts } => {
            crate::state::lemma_the_slice(module_name);
            let slices = texts_of(parts@).map_values(
                |part: Seq<u8>| crate::state::the_slice::<u8>(part),
            );
            assert(slices =~= parts@) by {
                assert forall|k: int| 0 <= k < parts@.len() implies slices[k] == parts@[k] by {
                    crate::state::lemma_the_slice(parts@[k]);
                }
            }
            crate::arena::lemma_list_of_view(parts);
        },
        Ident::AccessorFunction(name) => {
            crate::state::lemma_the_slice(name);
        },
        Ident::Malformed(text) => {
            crate::state::lemma_the_slice(text);
        },
    }
}

/// The identifier at the cursor, with the cursor after it.
#[verifier::opaque]
pub open spec fn ident_value<'a>(state: State<'a>) -> Option<(Ident<'a>, State<'a>)> {
    match ident_at(state.input@, state.offset as int) {
        Some((shape, end)) => Some((ident_of_shape(shape), state.at(end))),
        None => None,
    }
}

/// The fields `.a.b.c` at the cursor, with the cursor after them.
#[verifier::opaque]
pub open spec fn field_chain_at<'a>(state: State<'a>) -> (List<'a, &'a [u8]>, State<'a>) {
    (
        crate::arena::list_of(
            field_names(state.input@, state.offset as int).map_values(
                |part: Seq<u8>| crate::state::the_slice::<u8>(part),
            ),
        ),
        state.at(fields_end(state.input@, state.offset as int)),
    )
}

/// Reads an identifier: what `ident_at` says, where it says.
///
/// Reads nothing, and returns `None`, exactly when no identifier starts at
/// the cursor. An identifier lies on one line.
pub fn ident<'a>(arena: &'a Arena, state: State<'a>) -> (r: Option<(Ident<'a>, State<'a>)>)
    requires
        state.wf(),
    ensures
        r is Some <==> at_ident(state),
        r == ident_value(state),
        r matches Some((id, s)) ==> s.extends(state) && s.offset > state.offset && s.line
            == state.line && ident_ok(id),
{
    reveal(ident_value);
    let r = read_ident(arena, state);
    proof {
        if let Some((id, s)) = r {
            lemma_ident_of_shape(id);
            crate::state::lemma_state_at(state, s);
        }
    }
    r
}

fn read_ident<'a>(arena: &'a Arena, state: State<'a>) -> (r: Option<(Ident<'a>, State<'a>)>)
    requires
        state.wf(),
    ensures
        r is Some <==> at_ident(state),
        match r {
            Some((id, s)) => {
                &&& s.extends(state)
                &&& s.offset > state.offset
                &&& s.line == state.line
                &&& ident_ok(id)
                &&& ident_at(state.input@, state.offset as int) == Some(
                    (shape_of(id), s.offset as int),
                )
            },
            None => ident_at(state.input@, state.offset as int) is None,
        },
{
    match state.peek() {
        None => None,
        Some(b) => {
            if b == AT {
                match state.peek_at(1) {
                    Some(next) => {
                        if upper(next) {
                            let s = take_word(state);
                            let name: &'a [u8] = slice_of(state.input, state.offset, s.offset);
                            proof {
                                lemma_word_line(state, s);
                            }
                            Some((Ident::PrivateTag(name), s))
                        } else {
                            None
                        }
                    },
                    None => None,
                }
            } else if b == DOT {
                let after_dot = state.advance();
                proof {
                    crate::state::lemma_same_line(
                        state.input@,
                        state.offset as int,
                        after_dot.offset as int,
                    );
                }
                match lowercase_ident(after_dot) {
                    Some((name, s)) => Some((Ident::AccessorFunction(name), s)),
                    None => None,
                }
            } else if lower(b) {
                match lowercase_ident(state) {
                    Some((name, s)) => {
                        let (fields, end) = read_fields(arena, s);
                        let empty: &'a [u8] = slice_of(state.input, state.offset, state.offset);
                        let parts = List::cons(arena, name, fields);
                        proof {
                            assert(texts_of(parts@) =~= seq![name@].add(texts_of(fields@)));
                            assert(empty@ =~= Seq::<u8>::empty());
                        }
                        Some((Ident::Access { module_name: empty, parts }, end))
                    },
                    None => None,
                }
            } else if upper(b) {
                match uppercase_ident(state) {
                    Some((first, s)) => {
                        let modules_end = module_chain(s);
                        // A variable may follow the module name.
                        let variable = match modules_end.word1(DOT) {
                            Some(after_dot) => {
                                proof {
                                    crate::state::lemma_same_line(
                                        state.input@,
                                        modules_end.offset as int,
                                        after_dot.offset as int,
                                    );
                                }
                                lowercase_ident(after_dot)
                            },
                            None => None,
                        };
                        match variable {
                            Some((name, after_name)) => {
                                let (fields, end) = read_fields(arena, after_name);
                                let module_name: &'a [u8] = slice_of(
                                    state.input,
                                    state.offset,
                                    modules_end.offset,
                                );
                                let parts = List::cons(arena, name, fields);
                                proof {
                                    assert(texts_of(parts@) =~= seq![name@].add(texts_of(fields@)));
                                }
                                Some((Ident::Access { module_name, parts }, end))
                            },
                            None => {
                                if modules_end.offset == s.offset {
                                    Some((Ident::GlobalTag(first), s))
                                } else {
                                    let text: &'a [u8] = slice_of(
                                        state.input,
                                        state.offset,
                                        modules_end.offset,
                                    );
                                    Some((Ident::Malformed(text), modules_end))
                                }
                            },
                        }
                    },
                    None => None,
                }
            } else {
                None
            }
        },
    }
}

} // verus!
