use bumpalo::Bump;
use roc_front::arena::List;
use roc_front::ast::{Attempting, BinOp, Def, Expr, Pattern, StrLiteral, UnaryOp};
use roc_front::def::def;
use roc_front::errors::{EExpr, EWhen, SyntaxError};
use roc_front::expr::expr;
use roc_front::state::{Progress, State};

fn start(input: &[u8]) -> State<'_> {
    State::new(input, Attempting::Module).unwrap()
}

fn bare_def<'a>(d: Def<'a>) -> Def<'a> {
    match d {
        Def::SpaceBefore(inner, _) => bare_def(*inner),
        Def::SpaceAfter(inner, _) => bare_def(*inner),
        other => other,
    }
}

#[test]
fn defs_block_with_two_bodies() {
    let arena = Bump::new();
    let input = b"x = 1\ny = x\ny";
    let (_, parsed, end) = expr(0, &arena, start(input)).unwrap();
    assert_eq!(end.offset, input.len());
    match parsed {
        Expr::Defs(defs, ret) => {
            let defs = defs.to_vec();
            assert_eq!(defs.len(), 2);
            assert_eq!(defs[0].region.start_col, 0);
            assert_eq!(defs[1].region.start_col, 0);
            match defs[0].value {
                Def::Body(pattern, body) => {
                    assert_eq!(pattern.value, Pattern::Identifier(b"x"));
                    assert_eq!(body.value, Expr::Num(b"1"));
                }
                other => panic!("unexpected first def {:?}", other),
            }
            assert!(matches!(
                defs[1].value,
                Def::SpaceBefore(_, &[roc_front::ast::CommentOrNewline::Newline])
            ));
            match bare_def(defs[1].value) {
                Def::Body(pattern, body) => {
                    assert_eq!(pattern.value, Pattern::Identifier(b"y"));
                    assert_eq!(body.value, Expr::Var { module_name: b"", ident: b"x" });
                }
                other => panic!("unexpected second def {:?}", other),
            }
            assert_eq!(ret.value, Expr::SpaceBefore(&Expr::Var { module_name: b"", ident: b"y" }, &[roc_front::ast::CommentOrNewline::Newline]));
        }
        other => panic!("unexpected {:?}", other),
    }
}

#[test]
fn when_with_two_branches() {
    let arena = Bump::new();
    let input = b"when n is\n    0 -> \"zero\"\n    _ -> \"other\"";
    let (_, parsed, end) = expr(0, &arena, start(input)).unwrap();
    assert_eq!(end.offset, input.len());
    match parsed {
        Expr::When(cond, branches) => {
            match cond.value {
                Expr::SpaceAfter(inner, _) => assert_eq!(*inner, Expr::SpaceBefore(&Expr::Var { module_name: b"", ident: b"n" }, &[])),
                Expr::SpaceBefore(_, _) => {}
                other => assert_eq!(other, Expr::Var { module_name: b"", ident: b"n" }),
            }
            let branches = branches.to_vec();
            assert_eq!(branches.len(), 2);
            let first = branches[0].patterns.to_vec();
            let second = branches[1].patterns.to_vec();
            assert_eq!(first.len(), 1);
            assert_eq!(second.len(), 1);
            assert_eq!(first[0].region.start_col, 4);
            assert_eq!(second[0].region.start_col, 4);
            assert!(branches[0].guard.is_none());
        }
        other => panic!("unexpected {:?}", other),
    }
}

#[test]
fn when_alternative_to_the_left_is_misaligned() {
    let arena = Bump::new();
    let input = b"when n is\n    0 -> \"zero\"\n    _\n | 1 -> \"other\"";
    match expr(0, &arena, start(input)) {
        Err((Progress::MadeProgress, SyntaxError::Expr(EExpr::When(EWhen::PatternAlignment(by, _, _), _, _)), _)) => {
            assert_eq!(by, 1);
        }
        other => panic!("unexpected {:?}", other),
    }
}

#[test]
fn def_of_a_closure() {
    let arena = Bump::new();
    let input = b"f = \\x, y -> x + y";
    let (_, parsed, end) = def(0, &arena, start(input)).unwrap();
    assert_eq!(end.offset, input.len());
    match parsed {
        Def::Body(pattern, body) => {
            match pattern.value {
                Pattern::SpaceAfter(inner, _) => assert_eq!(*inner, Pattern::Identifier(b"f")),
                other => assert_eq!(other, Pattern::Identifier(b"f")),
            }
            let closure = match body.value {
                Expr::SpaceBefore(inner, _) => *inner,
                other => other,
            };
            match closure {
                Expr::Closure(params, body) => {
                    let params = params.to_vec();
                    assert_eq!(params.len(), 2);
                    match body.value {
                        Expr::SpaceBefore(inner, _) => match *inner {
                            Expr::BinOp(parts) => assert_eq!(parts.1.value, BinOp::Plus),
                            other => panic!("unexpected body {:?}", other),
                        },
                        Expr::BinOp(parts) => assert_eq!(parts.1.value, BinOp::Plus),
                        other => panic!("unexpected body {:?}", other),
                    }
                }
                other => panic!("unexpected {:?}", other),
            }
        }
        other => panic!("unexpected {:?}", other),
    }
}

#[test]
fn minus_before_an_argument_negates() {
    let arena = Bump::new();
    let input = b"foo -1";
    let (_, parsed, end) = expr(0, &arena, start(input)).unwrap();
    assert_eq!(end.offset, input.len());
    match parsed {
        Expr::Apply(f, args, _) => {
            assert_eq!(f.value, Expr::Var { module_name: b"", ident: b"foo" });
            let args = args.to_vec();
            assert_eq!(args.len(), 1);
            let arg = match args[0].value {
                Expr::SpaceBefore(inner, _) => *inner,
                other => other,
            };
            match arg {
                Expr::UnaryOp(operand, op) => {
                    assert_eq!(op.value, UnaryOp::Negate);
                    assert_eq!(operand.value, Expr::Num(b"1"));
                }
                other => panic!("unexpected {:?}", other),
            }
        }
        other => panic!("unexpected {:?}", other),
    }
}

#[test]
fn minus_between_spaces_subtracts() {
    let arena = Bump::new();
    for input in [&b"foo - 1"[..], &b"foo-1"[..]] {
        let (_, parsed, end) = expr(0, &arena, start(input)).unwrap();
        assert_eq!(end.offset, input.len());
        match parsed {
            Expr::BinOp(parts) => {
                assert_eq!(parts.1.value, BinOp::Minus);
                match parts.2.value {
                    Expr::SpaceBefore(inner, _) => assert_eq!(*inner, Expr::Num(b"1")),
                    other => assert_eq!(other, Expr::Num(b"1")),
                }
            }
            other => panic!("unexpected {:?}", other),
        }
    }
}

#[test]
fn record_destructure_begins_a_block() {
    let arena = Bump::new();
    let input = b"{ x, y } = pair\nx + y";
    let (_, parsed, end) = expr(0, &arena, start(input)).unwrap();
    assert_eq!(end.offset, input.len());
    match parsed {
        Expr::Defs(defs, ret) => {
            let defs = defs.to_vec();
            assert_eq!(defs.len(), 1);
            match defs[0].value {
                Def::Body(pattern, body) => {
                    let inner = match pattern.value {
                        Pattern::SpaceAfter(inner, _) => *inner,
                        other => other,
                    };
                    match inner {
                        Pattern::RecordDestructure(fields) => assert_eq!(fields.to_vec().len(), 2),
                        other => panic!("unexpected {:?}", other),
                    }
                    assert_eq!(body.value, Expr::Var { module_name: b"", ident: b"pair" });
                }
                other => panic!("unexpected {:?}", other),
            }
            match ret.value {
                Expr::SpaceBefore(inner, _) => match *inner {
                    Expr::BinOp(parts) => assert_eq!(parts.1.value, BinOp::Plus),
                    other => panic!("unexpected {:?}", other),
                },
                other => panic!("unexpected {:?}", other),
            }
        }
        other => panic!("unexpected {:?}", other),
    }
}

#[test]
fn string_without_escapes_is_plain() {
    let arena = Bump::new();
    let input = b"\"zero\"";
    let (_, parsed, _) = expr(0, &arena, start(input)).unwrap();
    assert_eq!(parsed, Expr::Str(StrLiteral::PlainLine(b"zero")));
    let _ = List::<u8>::Nil;
}
