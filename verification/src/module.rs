//! The grammar of a module: its header, which names the module, what it
//! exposes and what it imports, and the definitions that follow.

use vstd::prelude::*;
use crate::arena::{Arena, List};
use crate::ast::Def;
use crate::blankspace::{slice_of, space0, space1, spaces_at};
use crate::bounds::{lemma_loc_defs_widen, loc_defs_in};
use crate::combinators::located;
use crate::def::{def, def_at, parse_defs, parse_defs_at};
use crate::errors::{moves_on, ParseResult, SyntaxError};
use crate::expr::{CLOSE_BRACKET, COMMA, OPEN_BRACKET};
use crate::header::{ExposesEntry, ImportsEntry, InterfaceHeader};
use crate::ident::{
    lowercase_at, lowercase_ident, module_chain, modules_end, uppercase_at, uppercase_ident,
    word_end, DOT,
};
use crate::region::{Located, Region};
use crate::state::{Progress, State};
use crate::type_annotation::{CLOSE_BRACE, OPEN_BRACE};

verus! {

/// The failure that says that something else was expected at the cursor:
/// the end of the input was met, or something unexpected.
pub open spec fn unexpected_at<'a, T>(progress: Progress, at: State<'a>) -> ParseResult<
    'a,
    T,
    SyntaxError<'a>,
> {
    Err(
        (
            progress,
            if at.offset >= at.input@.len() {
                SyntaxError::Eof(Region::between(at.position(), at.position()))
            } else {
                SyntaxError::Unexpected(Region::between(at.position(), at.position()))
            },
            at,
        ),
    )
}

fn unexpected<'a, T>(progress: Progress, at: State<'a>) -> (r: ParseResult<'a, T, SyntaxError<'a>>)
    ensures
        r == unexpected_at::<T>(progress, at),
{
    let here = Region::from_positions(at.pos(), at.pos());
    if at.offset >= at.input.len() {
        Err((progress, SyntaxError::Eof(here), at))
    } else {
        Err((progress, SyntaxError::Unexpected(here), at))
    }
}

/// The name of a module at the cursor, with the cursor after it:
/// upper-case identifiers with dots between them, as `Foo.Bar.Baz`.
pub open spec fn module_name_at<'a>(state: State<'a>) -> Option<(&'a [u8], State<'a>)> {
    if crate::ident::at_uppercase_ident(state) {
        let end = modules_end(state.input@, word_end(state.input@, state.offset + 1));
        Some((state.text(state.offset as int, end), state.at(end)))
    } else {
        None
    }
}

/// Reads the name of a module.
pub fn module_name<'a>(state: State<'a>) -> (r: Option<(&'a [u8], State<'a>)>)
    requires
        state.wf(),
    ensures
        r == module_name_at(state),
        r is Some <==> crate::ident::at_uppercase_ident(state),
        r matches Some((name, s)) ==> s.extends(state) && s.offset > state.offset && name@
            == state.input@.subrange(state.offset as int, s.offset as int) && s.line == state.line,
{
    match uppercase_ident(state) {
        Some((_, s)) => {
            let end = module_chain(s);
            proof {
                crate::state::lemma_state_at(state, end);
            }
            Some((slice_of(state.input, state.offset, end.offset), end))
        },
        None => None,
    }
}

/// The entries of a list of identifiers and the byte `close` that ends
/// it, from the cursor after the byte that opened it or after a comma. An
/// entry is a lower-case or an upper-case identifier.
pub open spec fn exposed_entries_at<'a>(close: u8, state: State<'a>) -> ParseResult<
    'a,
    List<'a, Located<ExposesEntry<'a>>>,
    SyntaxError<'a>,
>
    decreases state.input@.len() - state.offset,
{
    match spaces_at(false, 0, state) {
        Err((_, problem, s)) => Err((Progress::MadeProgress, SyntaxError::space_of(problem), s)),
        Ok((_, _, s1)) => match s1.spec_word1(close) {
            Some(end) => Ok((Progress::MadeProgress, List::Nil, end)),
            None => {
                let named = match lowercase_at(s1) {
                    Some(found) => Some(found),
                    None => uppercase_at(s1),
                };
                match named {
                    None => unexpected_at(Progress::MadeProgress, s1),
                    Some((name, s2)) => {
                        let entry = Located {
                            region: s2.span_from(s1),
                            value: ExposesEntry::Ident(name),
                        };
                        match spaces_at(false, 0, s2) {
                            Err((_, problem, s)) => Err(
                                (Progress::MadeProgress, SyntaxError::space_of(problem), s),
                            ),
                            Ok((_, _, s3)) => match s3.spec_word1(COMMA) {
                                Some(s4) => if !state.leads_to(s4) {
                                    arbitrary()
                                } else {
                                    match exposed_entries_at(close, s4) {
                                        Ok((_, rest, end)) => Ok(
                                            (
                                                Progress::MadeProgress,
                                                List::Cons(&entry, &rest),
                                                end,
                                            ),
                                        ),
                                        Err((_, e, s)) => Err((Progress::MadeProgress, e, s)),
                                    }
                                },
                                None => match s3.spec_word1(close) {
                                    Some(end) => Ok(
                                        (
                                            Progress::MadeProgress,
                                            List::Cons(&entry, &List::Nil),
                                            end,
                                        ),
                                    ),
                                    None => unexpected_at(Progress::MadeProgress, s3),
                                },
                            },
                        }
                    },
                }
            },
        },
    }
}

/// Reads the entries of a list of identifiers and the byte `close` that
/// ends it, from the cursor after the byte that opened it or after a
/// comma.
fn exposed_entries<'a>(close: u8, arena: &'a Arena, state: State<'a>) -> (r: ParseResult<
    'a,
    List<'a, Located<ExposesEntry<'a>>>,
    SyntaxError<'a>,
>)
    requires
        state.wf(),
    ensures
        r == exposed_entries_at(close, state),
        moves_on(r, state),
        r matches Ok((p, _, _)) ==> p is MadeProgress,
    decreases state.input@.len() - state.offset,
{
    let s1 = match space0(0, arena, state) {
        Ok((_, _, s)) => s,
        Err((_, problem, s)) => {
            return Err((Progress::MadeProgress, SyntaxError::space(problem), s));
        },
    };
    if let Some(end) = s1.word1(close) {
        return Ok((Progress::MadeProgress, List::Nil, end));
    }
    let (name, s2) = match lowercase_ident(s1) {
        Some(found) => found,
        None => match uppercase_ident(s1) {
            Some(found) => found,
            None => {
                return unexpected(Progress::MadeProgress, s1);
            },
        },
    };
    let entry = located(&s1, &s2, ExposesEntry::Ident(name));
    let s3 = match space0(0, arena, s2) {
        Ok((_, _, s)) => s,
        Err((_, problem, s)) => {
            return Err((Progress::MadeProgress, SyntaxError::space(problem), s));
        },
    };
    match s3.word1(COMMA) {
        Some(s4) => match exposed_entries(close, arena, s4) {
            Ok((_, rest, end)) => Ok((Progress::MadeProgress, List::cons(arena, entry, rest), end)),
            Err((_, e, s)) => Err((Progress::MadeProgress, e, s)),
        },
        None => match s3.word1(close) {
            Some(end) => Ok((Progress::MadeProgress, List::cons(arena, entry, List::Nil), end)),
            None => unexpected(Progress::MadeProgress, s3),
        },
    }
}

/// The entries of the list of imports and the bracket that ends it, from
/// the cursor after the opening bracket or after a comma. An import is the
/// name of a module, with, if one likes, the identifiers that are imported
/// from it by name: `Foo` or `Foo.{ bar, Baz }`.
pub open spec fn import_entries_at<'a>(state: State<'a>) -> ParseResult<
    'a,
    List<'a, Located<ImportsEntry<'a>>>,
    SyntaxError<'a>,
>
    decreases state.input@.len() - state.offset,
{
    match spaces_at(false, 0, state) {
        Err((_, problem, s)) => Err((Progress::MadeProgress, SyntaxError::space_of(problem), s)),
        Ok((_, _, s1)) => match s1.spec_word1(CLOSE_BRACKET) {
            Some(end) => Ok((Progress::MadeProgress, List::Nil, end)),
            None => match module_name_at(s1) {
                None => unexpected_at(Progress::MadeProgress, s1),
                Some((name, s2)) => {
                    let exposed = match s2.spec_word(seq![DOT, OPEN_BRACE]) {
                        Some(inside) => exposed_entries_at(CLOSE_BRACE, inside),
                        None => Ok((Progress::NoProgress, List::Nil, s2)),
                    };
                    match exposed {
                        Err((_, e, s)) => Err((Progress::MadeProgress, e, s)),
                        Ok((_, exposed, s3)) => {
                            let entry = Located {
                                region: s3.span_from(s1),
                                value: ImportsEntry::Module(name, exposed),
                            };
                            match spaces_at(false, 0, s3) {
                                Err((_, problem, s)) => Err(
                                    (Progress::MadeProgress, SyntaxError::space_of(problem), s),
                                ),
                                Ok((_, _, s4)) => match s4.spec_word1(COMMA) {
                                    Some(s5) => if !state.leads_to(s5) {
                                        arbitrary()
                                    } else {
                                        match import_entries_at(s5) {
                                            Ok((_, rest, end)) => Ok(
                                                (
                                                    Progress::MadeProgress,
                                                    List::Cons(&entry, &rest),
                                                    end,
                                                ),
                                            ),
                                            Err((_, e, s)) => Err((Progress::MadeProgress, e, s)),
                                        }
                                    },
                                    None => match s4.spec_word1(CLOSE_BRACKET) {
                                        Some(end) => Ok(
                                            (
                                                Progress::MadeProgress,
                                                List::Cons(&entry, &List::Nil),
                                                end,
                                            ),
                                        ),
                                        None => unexpected_at(Progress::MadeProgress, s4),
                                    },
                                },
                            }
                        },
                    }
                },
            },
        },
    }
}

/// Reads the entries of the list of imports and the bracket that ends
/// it.
fn import_entries<'a>(arena: &'a Arena, state: State<'a>) -> (r: ParseResult<
    'a,
    List<'a, Located<ImportsEntry<'a>>>,
    SyntaxError<'a>,
>)
    requires
        state.wf(),
    ensures
        r == import_entries_at(state),
        moves_on(r, state),
        r matches Ok((p, _, _)) ==> p is MadeProgress,
    decreases state.input@.len() - state.offset,
{
    let s1 = match space0(0, arena, state) {
        Ok((_, _, s)) => s,
        Err((_, problem, s)) => {
            return Err((Progress::MadeProgress, SyntaxError::space(problem), s));
        },
    };
    if let Some(end) = s1.word1(CLOSE_BRACKET) {
        return Ok((Progress::MadeProgress, List::Nil, end));
    }
    let (name, s2) = match module_name(s1) {
        Some(found) => found,
        None => {
            return unexpected(Progress::MadeProgress, s1);
        },
    };
    let (exposed, s3) = match s2.word2(DOT, OPEN_BRACE) {
        Some(inside) => match exposed_entries(CLOSE_BRACE, arena, inside) {
            Ok((_, exposed, s)) => (exposed, s),
            Err((_, e, s)) => {
                return Err((Progress::MadeProgress, e, s));
            },
        },
        None => (List::Nil, s2),
    };
    let entry = located(&s1, &s3, ImportsEntry::Module(name, exposed));
    let s4 = match space0(0, arena, s3) {
        Ok((_, _, s)) => s,
        Err((_, problem, s)) => {
            return Err((Progress::MadeProgress, SyntaxError::space(problem), s));
        },
    };
    match s4.word1(COMMA) {
        Some(s5) => match import_entries(arena, s5) {
            Ok((_, rest, end)) => Ok((Progress::MadeProgress, List::cons(arena, entry, rest), end)),
            Err((_, e, s)) => Err((Progress::MadeProgress, e, s)),
        },
        None => match s4.word1(CLOSE_BRACKET) {
            Some(end) => Ok((Progress::MadeProgress, List::cons(arena, entry, List::Nil), end)),
            None => unexpected(Progress::MadeProgress, s4),
        },
    }
}

/// What reading white space and then the word `word` comes to.
pub open spec fn spaced_word_at<'a>(word: Seq<u8>, state: State<'a>) -> ParseResult<
    'a,
    (),
    SyntaxError<'a>,
> {
    match spaces_at(false, 0, state) {
        Err((p, problem, s)) => Err((p, SyntaxError::space_of(problem), s)),
        Ok((_, _, s1)) => match s1.spec_word(word) {
            Some(end) => Ok(
                (
                    if end.offset == state.offset {
                        Progress::NoProgress
                    } else {
                        Progress::MadeProgress
                    },
                    (),
                    end,
                ),
            ),
            None => if s1.offset == state.offset {
                unexpected_at(Progress::NoProgress, state)
            } else {
                unexpected_at(Progress::MadeProgress, s1)
            },
        },
    }
}

/// Reads white space and then the word `word`.
fn spaced_word<'a>(word: &[u8], arena: &'a Arena, state: State<'a>) -> (r: ParseResult<
    'a,
    (),
    SyntaxError<'a>,
>)
    requires
        state.wf(),
    ensures
        r == spaced_word_at(word@, state),
        moves_on(r, state),
        r matches Ok((p, _, s)) ==> p is MadeProgress || word@.len() == 0,
{
    let s1 = match space0(0, arena, state) {
        Ok((_, _, s)) => s,
        Err((p, problem, s)) => {
            return Err((p, SyntaxError::space(problem), s));
        },
    };
    match s1.ascii_string(word) {
        Some(end) => Ok((Progress::from_offsets(state.offset, end.offset), (), end)),
        None => {
            if s1.offset == state.offset {
                proof {
                    crate::state::lemma_same_offset(s1, state);
                }
                unexpected(Progress::NoProgress, state)
            } else {
                unexpected(Progress::MadeProgress, s1)
            }
        },
    }
}

/// The bytes of `interface`.
pub open spec fn word_interface() -> Seq<u8> {
    seq![105u8, 110u8, 116u8, 101u8, 114u8, 102u8, 97u8, 99u8, 101u8]
}

/// The bytes of `exposes`.
pub open spec fn word_exposes() -> Seq<u8> {
    seq![101u8, 120u8, 112u8, 111u8, 115u8, 101u8, 115u8]
}

/// The bytes of `imports`.
pub open spec fn word_imports() -> Seq<u8> {
    seq![105u8, 109u8, 112u8, 111u8, 114u8, 116u8, 115u8]
}

/// What reading, after white space, an opening bracket and a list of
/// exposed identifiers comes to.
pub open spec fn exposes_list_at<'a>(state: State<'a>) -> ParseResult<
    'a,
    List<'a, Located<ExposesEntry<'a>>>,
    SyntaxError<'a>,
> {
    match spaces_at(false, 0, state) {
        Err((_, problem, s)) => Err((Progress::MadeProgress, SyntaxError::space_of(problem), s)),
        Ok((_, _, s5)) => match s5.spec_word1(OPEN_BRACKET) {
            None => unexpected_at(Progress::MadeProgress, s5),
            Some(s6) => match exposed_entries_at(CLOSE_BRACKET, s6) {
                Ok((_, list, s)) => Ok((Progress::MadeProgress, list, s)),
                Err((_, e, s)) => Err((Progress::MadeProgress, e, s)),
            },
        },
    }
}

/// What reading, after white space, an opening bracket and a list of
/// imports comes to.
pub open spec fn imports_list_at<'a>(state: State<'a>) -> ParseResult<
    'a,
    List<'a, Located<ImportsEntry<'a>>>,
    SyntaxError<'a>,
> {
    match spaces_at(false, 0, state) {
        Err((_, problem, s)) => Err((Progress::MadeProgress, SyntaxError::space_of(problem), s)),
        Ok((_, _, s9)) => match s9.spec_word1(OPEN_BRACKET) {
            None => unexpected_at(Progress::MadeProgress, s9),
            Some(s10) => match import_entries_at(s10) {
                Ok((_, list, s)) => Ok((Progress::MadeProgress, list, s)),
                Err((_, e, s)) => Err((Progress::MadeProgress, e, s)),
            },
        },
    }
}

/// What reading the header of an interface module comes to.
pub open spec fn header_at<'a>(state: State<'a>) -> ParseResult<
    'a,
    InterfaceHeader<'a>,
    SyntaxError<'a>,
> {
    match spaced_word_at(word_interface(), state) {
        Err((_, e, _)) => Err((Progress::NoProgress, e, state)),
        Ok((_, _, s1)) => match spaces_at(true, 0, s1) {
            Err((_, problem, s)) => Err(
                (Progress::MadeProgress, SyntaxError::space_of(problem), s),
            ),
            Ok((_, _, s2)) => match module_name_at(s2) {
                None => unexpected_at(Progress::MadeProgress, s2),
                Some((name, s3)) => match spaced_word_at(word_exposes(), s3) {
                    Err((_, e, s)) => Err((Progress::MadeProgress, e, s)),
                    Ok((_, _, s4)) => match exposes_list_at(s4) {
                        Err(e) => Err(e),
                        Ok((_, exposes, s7)) => match spaced_word_at(word_imports(), s7) {
                            Err((_, e, s)) => Err((Progress::MadeProgress, e, s)),
                            Ok((_, _, s8)) => match imports_list_at(s8) {
                                Err(e) => Err(e),
                                Ok((_, imports, end)) => Ok(
                                    (
                                        Progress::MadeProgress,
                                        InterfaceHeader {
                                            name: Located {
                                                region: s3.span_from(s2),
                                                value: name,
                                            },
                                            exposes,
                                            imports,
                                        },
                                        end,
                                    ),
                                ),
                            },
                        },
                    },
                },
            },
        },
    }
}

/// Reads, after white space, an opening bracket and a list of exposed
/// identifiers.
fn exposes_list<'a>(arena: &'a Arena, state: State<'a>) -> (r: ParseResult<
    'a,
    List<'a, Located<ExposesEntry<'a>>>,
    SyntaxError<'a>,
>)
    requires
        state.wf(),
    ensures
        r == exposes_list_at(state),
        moves_on(r, state),
        r matches Ok((p, _, _)) ==> p is MadeProgress,
        r matches Err((p, _, _)) ==> p is MadeProgress,
{
    let s5 = match space0(0, arena, state) {
        Ok((_, _, s)) => s,
        Err((_, problem, s)) => {
            return Err((Progress::MadeProgress, SyntaxError::space(problem), s));
        },
    };
    let s6 = match s5.word1(OPEN_BRACKET) {
        Some(s) => s,
        None => {
            return unexpected(Progress::MadeProgress, s5);
        },
    };
    match exposed_entries(CLOSE_BRACKET, arena, s6) {
        Ok((_, list, s)) => Ok((Progress::MadeProgress, list, s)),
        Err((_, e, s)) => Err((Progress::MadeProgress, e, s)),
    }
}

/// Reads, after white space, an opening bracket and a list of imports.
fn imports_list<'a>(arena: &'a Arena, state: State<'a>) -> (r: ParseResult<
    'a,
    List<'a, Located<ImportsEntry<'a>>>,
    SyntaxError<'a>,
>)
    requires
        state.wf(),
    ensures
        r == imports_list_at(state),
        moves_on(r, state),
        r matches Ok((p, _, _)) ==> p is MadeProgress,
        r matches Err((p, _, _)) ==> p is MadeProgress,
{
    let s9 = match space0(0, arena, state) {
        Ok((_, _, s)) => s,
        Err((_, problem, s)) => {
            return Err((Progress::MadeProgress, SyntaxError::space(problem), s));
        },
    };
    let s10 = match s9.word1(OPEN_BRACKET) {
        Some(s) => s,
        None => {
            return unexpected(Progress::MadeProgress, s9);
        },
    };
    match import_entries(arena, s10) {
        Ok((_, list, s)) => Ok((Progress::MadeProgress, list, s)),
        Err((_, e, s)) => Err((Progress::MadeProgress, e, s)),
    }
}

/// Reads the header of an interface module:
///
/// ```text
/// interface Name exposes [ ident, ident ] imports [ Module, Module.{ ident } ]
/// ```
///
/// White space and comments may stand between all parts. Fails without
/// progress if, after the white space at the cursor, what follows does not
/// start with `interface`.
pub fn header<'a>(arena: &'a Arena, state: State<'a>) -> (r: ParseResult<
    'a,
    InterfaceHeader<'a>,
    SyntaxError<'a>,
>)
    requires
        state.wf(),
    ensures
        r == header_at(state),
        moves_on(r, state),
        r matches Ok((p, h, s)) ==> p is MadeProgress,
{
    let word_interface: [u8; 9] = [105, 110, 116, 101, 114, 102, 97, 99, 101];
    let word_exposes: [u8; 7] = [101, 120, 112, 111, 115, 101, 115];
    let word_imports: [u8; 7] = [105, 109, 112, 111, 114, 116, 115];
    proof {
        assert(word_interface@ =~= crate::module::word_interface());
        assert(word_exposes@ =~= crate::module::word_exposes());
        assert(word_imports@ =~= crate::module::word_imports());
    }
    let s1 = match spaced_word(word_interface.as_slice(), arena, state) {
        Ok((_, _, s)) => s,
        Err((_, e, _)) => {
            return Err((Progress::NoProgress, e, state));
        },
    };
    let s2 = match space1(0, arena, s1) {
        Ok((_, _, s)) => s,
        Err((_, problem, s)) => {
            return Err((Progress::MadeProgress, SyntaxError::space(problem), s));
        },
    };
    let (name, s3) = match module_name(s2) {
        Some(found) => found,
        None => {
            return unexpected(Progress::MadeProgress, s2);
        },
    };
    let loc_name = located(&s2, &s3, name);
    let s4 = match spaced_word(word_exposes.as_slice(), arena, s3) {
        Ok((_, _, s)) => s,
        Err((_, e, s)) => {
            return Err((Progress::MadeProgress, e, s));
        },
    };
    let (exposes, s7) = match exposes_list(arena, s4) {
        Ok((_, list, s)) => (list, s),
        Err(e) => {
            return Err(e);
        },
    };
    let s8 = match spaced_word(word_imports.as_slice(), arena, s7) {
        Ok((_, _, s)) => s,
        Err((_, e, s)) => {
            return Err((Progress::MadeProgress, e, s));
        },
    };
    match imports_list(arena, s8) {
        Ok((_, imports, end)) => Ok(
            (Progress::MadeProgress, InterfaceHeader { name: loc_name, exposes, imports }, end),
        ),
        Err(e) => Err(e),
    }
}

/// The definitions of a module and the cursor after them: a first
/// definition in the first column, and all that follow it there.
pub open spec fn top_defs_at<'a>(state: State<'a>) -> ParseResult<
    'a,
    List<'a, Located<Def<'a>>>,
    SyntaxError<'a>,
> {
    match def_at(0, state) {
        Ok((_, first, s)) => match parse_defs_at(0, s) {
            Ok((_, rest, end)) => Ok(
                (
                    Progress::MadeProgress,
                    List::Cons(&(Located { region: s.span_from(state), value: first }), &rest),
                    end,
                ),
            ),
            Err((_, e, s)) => Err((Progress::MadeProgress, e, s)),
        },
        Err((Progress::NoProgress, _, _)) => Ok((Progress::NoProgress, List::Nil, state)),
        Err((Progress::MadeProgress, e, s)) => Err((Progress::MadeProgress, e, s)),
    }
}

/// What reading the definitions of a module comes to.
pub open spec fn module_defs_at<'a>(state: State<'a>) -> ParseResult<
    'a,
    List<'a, Located<Def<'a>>>,
    SyntaxError<'a>,
> {
    match spaces_at(false, 0, state) {
        Err((p, problem, s)) => Err((p, SyntaxError::space_of(problem), s)),
        Ok((_, _, s1)) => match top_defs_at(s1) {
            Err((_, e, s)) => Err((Progress::MadeProgress, e, s)),
            Ok((_, defs, s2)) => match spaces_at(false, 0, s2) {
                Err((_, problem, s)) => Err(
                    (Progress::MadeProgress, SyntaxError::space_of(problem), s),
                ),
                Ok((_, _, end)) => if end.offset == end.input@.len() {
                    Ok(
                        (
                            if end.offset == state.offset {
                                Progress::NoProgress
                            } else {
                                Progress::MadeProgress
                            },
                            defs,
                            end,
                        ),
                    )
                } else if end.offset == state.offset {
                    Err(
                        (
                            Progress::NoProgress,
                            SyntaxError::NotEndOfFile(end.line, end.column),
                            state,
                        ),
                    )
                } else {
                    Err(
                        (
                            Progress::MadeProgress,
                            SyntaxError::NotEndOfFile(end.line, end.column),
                            end,
                        ),
                    )
                },
            },
        },
    }
}

/// Reads the definitions of a module and hands back the cursor after
/// them: a first definition in the first column, and all that follow it
/// there.
fn top_defs<'a>(arena: &'a Arena, state: State<'a>) -> (r: ParseResult<
    'a,
    List<'a, Located<Def<'a>>>,
    SyntaxError<'a>,
>)
    requires
        state.wf(),
    ensures
        r == top_defs_at(state),
        moves_on(r, state),
        r matches Ok((p, defs, s)) ==> loc_defs_in(defs, s.span_from(state)),
        r matches Err((p, _, _)) ==> p is MadeProgress,
{
    match def(0, arena, state) {
        Ok((_, first, s)) => {
            let loc_first = located(&state, &s, first);
            match parse_defs(0, arena, s) {
                Ok((_, rest, end)) => {
                    let defs = List::cons(arena, loc_first, rest);
                    proof {
                        lemma_loc_defs_widen(rest, end.span_from(s), end.span_from(state));
                        assert(loc_defs_in(defs, end.span_from(state)));
                    }
                    Ok((Progress::MadeProgress, defs, end))
                },
                Err((_, e, s)) => Err((Progress::MadeProgress, e, s)),
            }
        },
        Err((Progress::NoProgress, _, _)) => {
            assert(loc_defs_in(List::Nil, state.span_from(state)));
            Ok((Progress::NoProgress, List::Nil, state))
        },
        Err((Progress::MadeProgress, e, s)) => Err((Progress::MadeProgress, e, s)),
    }
}

/// Reads the definitions of a module, which all start in the first
/// column, with white space between them, and the white space after the
/// last. It is a failure (`NotEndOfFile`) if anything but definitions is
/// left.
pub fn module_defs<'a>(arena: &'a Arena, state: State<'a>) -> (r: ParseResult<
    'a,
    List<'a, Located<Def<'a>>>,
    SyntaxError<'a>,
>)
    requires
        state.wf(),
    ensures
        r == module_defs_at(state),
        moves_on(r, state),
        r matches Ok((p, defs, s)) ==> loc_defs_in(defs, s.span_from(state)) && s.offset
            == s.input@.len(),
{
    let s1 = match space0(0, arena, state) {
        Ok((_, _, s)) => s,
        Err((p, problem, s)) => {
            return Err((p, SyntaxError::space(problem), s));
        },
    };
    let (defs, s2) = match top_defs(arena, s1) {
        Ok((_, defs, s)) => (defs, s),
        Err((_, e, s)) => {
            return Err((Progress::MadeProgress, e, s));
        },
    };
    let end = match space0(0, arena, s2) {
        Ok((_, _, s)) => s,
        Err((_, problem, s)) => {
            return Err((Progress::MadeProgress, SyntaxError::space(problem), s));
        },
    };
    if end.at_end() {
        proof {
            lemma_loc_defs_widen(defs, s2.span_from(s1), end.span_from(state));
        }
        Ok((Progress::from_offsets(state.offset, end.offset), defs, end))
    } else if end.offset == state.offset {
        proof {
            crate::state::lemma_same_offset(end, state);
        }
        Err((Progress::NoProgress, SyntaxError::NotEndOfFile(end.line, end.column), state))
    } else {
        Err((Progress::MadeProgress, SyntaxError::NotEndOfFile(end.line, end.column), end))
    }
}

} // verus!
