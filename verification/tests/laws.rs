use bumpalo::Bump;
use roc_front::ast::{AssignedField, Attempting, Def, Expr};
use roc_front::combinators::{backtrackable, one_of, or_else};
use roc_front::errors::ParseResult;
use roc_front::expr::expr;
use roc_front::region::{Located, Region};
use roc_front::state::{Progress, State};
use std::cell::Cell;

fn open(input: &[u8]) -> State<'_> {
    State::new(input, Attempting::Module).unwrap()
}

const INPUTS: [&[u8]; 8] = [
    b"x = 1\ny = x\ny",
    b"when n is\n    0 -> \"zero\"\n    _ -> \"other\"",
    b"f = \\x, y -> x + y\nf 1 2",
    b"foo (bar 1) [ x, y ] + baz.field",
    b"if a then b else if c then d else e",
    b"{ x, y } = pair\nx + y",
    b"{ r & name: \"n\", age: 3 }",
    b"x : Int\nx = -1\n!x",
];

#[test]
fn the_same_text_reads_the_same_every_time() {
    for input in INPUTS {
        let first_arena = Bump::new();
        let second_arena = Bump::new();
        let first = expr(0, &first_arena, open(input));
        let second = expr(0, &second_arena, open(input));
        assert!(first.is_ok(), "{}", String::from_utf8_lossy(input));
        assert_eq!(first, second);
    }
}

/// A part lies inside the whole and is not the whole.
fn inside(part: &Region, around: &Region) {
    assert!(around.contains(part), "{:?} is not inside {:?}", part, around);
    assert_ne!(part, around);
}

fn check_located(e: &Located<Expr<'_>>, around: &Region) {
    assert!(e.region.start_line < e.region.end_line
        || (e.region.start_line == e.region.end_line && e.region.start_col <= e.region.end_col));
    inside(&e.region, around);
    check_expr(&e.value, &e.region);
}

fn check_field(f: &AssignedField<'_, Expr<'_>>, around: &Region) {
    match f {
        AssignedField::RequiredValue(label, _, value)
        | AssignedField::OptionalValue(label, _, value) => {
            inside(&label.region, around);
            check_located(value, around);
        }
        // A field that is its label alone has the region of its label.
        AssignedField::LabelOnly(label) => assert!(around.contains(&label.region)),
        AssignedField::SpaceBefore(inner, _) | AssignedField::SpaceAfter(inner, _) => {
            check_field(inner, around)
        }
        AssignedField::Malformed(_) => {}
    }
}

fn check_def(d: &Def<'_>, around: &Region) {
    match d {
        Def::Body(pattern, body) => {
            inside(&pattern.region, around);
            check_located(body, around);
        }
        Def::AnnotatedBody { ann_pattern, ann_type, body_pattern, body_expr, .. } => {
            inside(&ann_pattern.region, around);
            inside(&ann_type.region, around);
            inside(&body_pattern.region, around);
            check_located(body_expr, around);
        }
        Def::Annotation(pattern, ann) => {
            inside(&pattern.region, around);
            inside(&ann.region, around);
        }
        Def::SpaceBefore(inner, _) | Def::SpaceAfter(inner, _) => check_def(inner, around),
        _ => {}
    }
}

fn check_expr(e: &Expr<'_>, around: &Region) {
    match e {
        Expr::Access(inner, _)
        | Expr::SpaceBefore(inner, _)
        | Expr::SpaceAfter(inner, _)
        | Expr::ParensAround(inner)
        | Expr::Nested(inner) => check_expr(inner, around),
        Expr::List { items, .. } => {
            for item in items.to_vec() {
                check_located(&item, around);
            }
        }
        Expr::Record { update, fields, .. } => {
            if let Some(base) = update {
                check_located(base, around);
            }
            for field in fields.to_vec() {
                inside(&field.region, around);
                check_field(&field.value, &field.region);
            }
        }
        Expr::Closure(params, body) => {
            for param in params.to_vec() {
                inside(&param.region, around);
            }
            check_located(body, around);
        }
        Expr::Defs(defs, ret) => {
            for d in defs.to_vec() {
                inside(&d.region, around);
                check_def(&d.value, &d.region);
            }
            check_located(ret, around);
        }
        Expr::Apply(f, args, _) => {
            check_located(f, around);
            for arg in args.to_vec() {
                check_located(&arg, around);
            }
        }
        Expr::BinOp(parts) => {
            check_located(&parts.0, around);
            inside(&parts.1.region, around);
            check_located(&parts.2, around);
        }
        Expr::UnaryOp(operand, op) => {
            inside(&op.region, around);
            check_located(operand, around);
        }
        Expr::If(branches, otherwise) => {
            for (condition, branch) in branches.to_vec() {
                check_located(&condition, around);
                check_located(&branch, around);
            }
            check_located(otherwise, around);
        }
        Expr::When(condition, branches) => {
            check_located(condition, around);
            for branch in branches.to_vec() {
                for pattern in branch.patterns.to_vec() {
                    inside(&pattern.region, around);
                }
                if let Some(guard) = &branch.guard {
                    check_located(guard, around);
                }
                check_located(&branch.value, around);
            }
        }
        _ => {}
    }
}

#[test]
fn regions_of_parts_lie_inside_the_whole() {
    for input in INPUTS {
        let arena = Bump::new();
        let start = open(input);
        let (_, parsed, end) = expr(0, &arena, start).unwrap();
        let whole = end.region_since(&start);
        assert_eq!(whole.start_line, 0);
        assert_eq!(whole.start_col, 0);
        check_expr(&parsed, &whole);
    }
}

#[test]
fn failure_with_progress_ends_the_choice() {
    let state = open(b"abc");
    let tried = Cell::new(0);
    let fails_late = |s: State<'static>| -> ParseResult<'static, u8, u8> {
        Err((Progress::MadeProgress, 1, s.advance()))
    };
    let fails_early = |s: State<'static>| -> ParseResult<'static, u8, u8> {
        Err((Progress::NoProgress, 2, s))
    };
    let succeeds = |s: State<'static>| -> ParseResult<'static, u8, u8> {
        Ok((Progress::MadeProgress, 3, s.advance()))
    };
    let counted = |s: State<'static>| -> ParseResult<'static, u8, u8> {
        tried.set(tried.get() + 1);
        Ok((Progress::MadeProgress, 4, s.advance()))
    };

    // A failure with progress is final: the second is not tried.
    let r = one_of(fails_late, &counted, state);
    assert_eq!(r, Err((Progress::MadeProgress, 1, state.advance())));
    assert_eq!(tried.get(), 0);
    // So is a success.
    let r = one_of(succeeds, &counted, state);
    assert_eq!(r, Ok((Progress::MadeProgress, 3, state.advance())));
    assert_eq!(tried.get(), 0);
    // Only a failure without progress lets the second try.
    let r = one_of(fails_early, &counted, state);
    assert_eq!(r, Ok((Progress::MadeProgress, 4, state.advance())));
    assert_eq!(tried.get(), 1);

    let r = or_else(fails_late(state), &counted, state);
    assert_eq!(r, Err((Progress::MadeProgress, 1, state.advance())));
    assert_eq!(tried.get(), 1);
    let r = or_else(fails_early(state), &counted, state);
    assert_eq!(r, Ok((Progress::MadeProgress, 4, state.advance())));
    assert_eq!(tried.get(), 2);

    // What can be taken back is tried again elsewhere.
    let r = one_of(|s| backtrackable(fails_late, s), &counted, state);
    assert_eq!(r, Ok((Progress::MadeProgress, 4, state.advance())));
    assert_eq!(tried.get(), 3);
    assert_eq!(backtrackable(fails_late, state), Err((Progress::NoProgress, 1, state)));
}
