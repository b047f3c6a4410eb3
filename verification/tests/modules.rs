use bumpalo::Bump;
use roc_front::ast::{Attempting, Def, Expr, Pattern};
use roc_front::errors::SyntaxError;
use roc_front::header::{ExposesEntry, ImportsEntry};
use roc_front::module::{header, module_defs, module_name};
use roc_front::region::Region;
use roc_front::state::{Progress, State};

fn open(input: &[u8]) -> State<'_> {
    State::new(input, Attempting::Module).unwrap()
}

#[test]
fn module_name_runs_over_its_dots() {
    let (name, rest) = module_name(open(b"Foo.Bar.Baz x")).unwrap();
    assert_eq!(name, b"Foo.Bar.Baz");
    assert_eq!(rest.offset, 11);
    assert_eq!(rest.column, 11);

    let (name, rest) = module_name(open(b"Foo.bar")).unwrap();
    assert_eq!(name, b"Foo");
    assert_eq!(rest.offset, 3);

    assert!(module_name(open(b"foo")).is_none());
    assert!(module_name(open(b"")).is_none());
}

#[test]
fn header_with_exposes_and_imports() {
    let arena = Bump::new();
    let input = b"interface Foo.Bar exposes [ a, B ] imports [ Json, Task.{ after, Task } ]\n";
    let (progress, h, rest) = header(&arena, open(input)).unwrap();
    assert_eq!(progress, Progress::MadeProgress);
    assert_eq!(h.name.value, b"Foo.Bar");
    assert_eq!(h.name.region, Region::new(0, 0, 10, 17));

    let exposes = h.exposes.to_vec();
    assert_eq!(exposes.len(), 2);
    assert_eq!(exposes[0].value, ExposesEntry::Ident(b"a"));
    assert_eq!(exposes[0].region, Region::new(0, 0, 28, 29));
    assert_eq!(exposes[1].value, ExposesEntry::Ident(b"B"));
    assert_eq!(exposes[1].region, Region::new(0, 0, 31, 32));

    let imports = h.imports.to_vec();
    assert_eq!(imports.len(), 2);
    match imports[0].value {
        ImportsEntry::Module(name, exposed) => {
            assert_eq!(name, b"Json");
            assert!(exposed.to_vec().is_empty());
        }
        other => panic!("{:?}", other),
    }
    assert_eq!(imports[0].region, Region::new(0, 0, 45, 49));
    match imports[1].value {
        ImportsEntry::Module(name, exposed) => {
            assert_eq!(name, b"Task");
            let exposed = exposed.to_vec();
            assert_eq!(exposed.len(), 2);
            assert_eq!(exposed[0].value, ExposesEntry::Ident(b"after"));
            assert_eq!(exposed[1].value, ExposesEntry::Ident(b"Task"));
        }
        other => panic!("{:?}", other),
    }
    assert_eq!(imports[1].region, Region::new(0, 0, 51, 71));
    assert_eq!(rest.offset, input.len() - 1);
}

#[test]
fn header_with_empty_lists_over_several_lines() {
    let arena = Bump::new();
    let input = b"# a module\ninterface Empty\n    exposes []\n    imports []\nx = 1\n";
    let (_, h, rest) = header(&arena, open(input)).unwrap();
    assert_eq!(h.name.value, b"Empty");
    assert_eq!(h.name.region, Region::new(1, 1, 10, 15));
    assert!(h.exposes.to_vec().is_empty());
    assert!(h.imports.to_vec().is_empty());
    assert_eq!(rest.line, 3);
    assert_eq!(rest.column, 14);
}

#[test]
fn header_that_does_not_begin_with_its_word_makes_no_progress() {
    let arena = Bump::new();
    let state = open(b"x = 1");
    match header(&arena, state) {
        Err((progress, SyntaxError::Unexpected(region), rest)) => {
            assert_eq!(progress, Progress::NoProgress);
            assert_eq!(region, Region::new(0, 0, 0, 0));
            assert_eq!(rest, state);
        }
        other => panic!("{:?}", other),
    }
    let state = open(b"");
    match header(&arena, state) {
        Err((progress, SyntaxError::Eof(_), rest)) => {
            assert_eq!(progress, Progress::NoProgress);
            assert_eq!(rest, state);
        }
        other => panic!("{:?}", other),
    }
}

#[test]
fn header_that_breaks_off_fails_where_it_breaks() {
    let arena = Bump::new();
    match header(&arena, open(b"interface foo exposes [] imports []")) {
        Err((progress, SyntaxError::Unexpected(region), _)) => {
            assert_eq!(progress, Progress::MadeProgress);
            assert_eq!(region, Region::new(0, 0, 10, 10));
        }
        other => panic!("{:?}", other),
    }
    match header(&arena, open(b"interface Foo exposes [ a b ] imports []")) {
        Err((progress, SyntaxError::Unexpected(region), _)) => {
            assert_eq!(progress, Progress::MadeProgress);
            assert_eq!(region, Region::new(0, 0, 26, 26));
        }
        other => panic!("{:?}", other),
    }
    match header(&arena, open(b"interface Foo exposes [ a ] imports [ Json")) {
        Err((progress, SyntaxError::Eof(region), _)) => {
            assert_eq!(progress, Progress::MadeProgress);
            assert_eq!(region, Region::new(0, 0, 42, 42));
        }
        other => panic!("{:?}", other),
    }
    match header(&arena, open(b"interface Foo imports []")) {
        Err((progress, SyntaxError::Unexpected(region), _)) => {
            assert_eq!(progress, Progress::MadeProgress);
            assert_eq!(region, Region::new(0, 0, 14, 14));
        }
        other => panic!("{:?}", other),
    }
}

#[test]
fn definitions_of_a_module_stand_in_the_first_column() {
    let arena = Bump::new();
    let input = b"\nx = 1\n\n# the second\ny = x\n";
    let (progress, defs, rest) = module_defs(&arena, open(input)).unwrap();
    assert_eq!(progress, Progress::MadeProgress);
    assert_eq!(rest.offset, input.len());
    let defs = defs.to_vec();
    assert_eq!(defs.len(), 2);
    match defs[0].value {
        Def::Body(pattern, body) => {
            assert_eq!(pattern.value, Pattern::Identifier(b"x"));
            assert_eq!(pattern.region, Region::new(1, 1, 0, 1));
            assert_eq!(body.value, Expr::Num(b"1"));
            assert_eq!(body.region, Region::new(1, 1, 4, 5));
        }
        other => panic!("{:?}", other),
    }
    assert_eq!(defs[0].region, Region::new(1, 1, 0, 5));
    match defs[1].value {
        Def::SpaceBefore(inner, _) => match *inner {
            Def::Body(pattern, body) => {
                assert_eq!(pattern.value, Pattern::Identifier(b"y"));
                assert_eq!(body.value, Expr::Var { module_name: b"", ident: b"x" });
            }
            other => panic!("{:?}", other),
        },
        other => panic!("{:?}", other),
    }
}

#[test]
fn module_without_definitions_is_empty() {
    let arena = Bump::new();
    let (progress, defs, _) = module_defs(&arena, open(b"")).unwrap();
    assert_eq!(progress, Progress::NoProgress);
    assert!(defs.to_vec().is_empty());

    let (progress, defs, rest) = module_defs(&arena, open(b"\n# nothing\n")).unwrap();
    assert_eq!(progress, Progress::MadeProgress);
    assert!(defs.to_vec().is_empty());
    assert_eq!(rest.offset, 11);
}

#[test]
fn what_is_left_after_the_definitions_is_refused() {
    let arena = Bump::new();
    match module_defs(&arena, open(b"x = 1\n)")) {
        Err((progress, SyntaxError::NotEndOfFile(line, column), _)) => {
            assert_eq!(progress, Progress::MadeProgress);
            assert_eq!((line, column), (1, 0));
        }
        other => panic!("{:?}", other),
    }
    let state = open(b")");
    match module_defs(&arena, state) {
        Err((progress, SyntaxError::NotEndOfFile(line, column), rest)) => {
            assert_eq!(progress, Progress::NoProgress);
            assert_eq!((line, column), (0, 0));
            assert_eq!(rest, state);
        }
        other => panic!("{:?}", other),
    }
}
