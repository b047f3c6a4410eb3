use bumpalo::Bump;
use roc_front::ast::{
    AssignedField, Attempting, Base, BinOp, CalledVia, CommentOrNewline, Def, EscapedChar, Expr,
    Pattern, StrLiteral, StrSegment, TypeAnnotation, UnaryOp,
};
use roc_front::blankspace::{space0, space1};
use roc_front::def::def;
use roc_front::errors::{
    EExpr, EInParens, EIf, ELambda, EList, ERecord, EString, EWhen, SpaceProblem, SyntaxError,
};
use roc_front::expr::{
    binop, equals_for_def, equals_with_indent, equals_with_indent_help, expr, fail_expr_start,
    ident_without_apply, reserved_keyword,
};
use roc_front::region::Region;
use roc_front::state::{BadInputError, Progress, State};

fn start(input: &[u8]) -> State<'_> {
    State::new(input, Attempting::Module).unwrap()
}

fn bare<'a>(e: Expr<'a>) -> Expr<'a> {
    match e {
        Expr::SpaceBefore(inner, _) => bare(*inner),
        Expr::SpaceAfter(inner, _) => bare(*inner),
        other => other,
    }
}

fn bare_pattern<'a>(p: Pattern<'a>) -> Pattern<'a> {
    match p {
        Pattern::SpaceBefore(inner, _) => bare_pattern(*inner),
        Pattern::SpaceAfter(inner, _) => bare_pattern(*inner),
        other => other,
    }
}

fn var(name: &[u8]) -> Expr<'_> {
    Expr::Var { module_name: b"", ident: name }
}

fn parse_all<'a>(arena: &'a Bump, input: &'a [u8]) -> Expr<'a> {
    let (progress, parsed, end) = expr(0, arena, start(input)).unwrap();
    assert_eq!(progress, Progress::MadeProgress);
    assert_eq!(end.offset, input.len(), "input was not read to its end");
    parsed
}

#[test]
fn cursor_starts_at_line_zero_column_zero() {
    let s = start(b"abc");
    assert_eq!((s.offset, s.line, s.column, s.indent_col, s.is_indenting), (0, 0, 0, 0, true));
    assert!(!s.at_end());
    assert_eq!(s.peek(), Some(b'a'));
    assert_eq!(s.peek_at(2), Some(b'c'));
    assert_eq!(s.peek_at(3), None);
}

#[test]
fn cursor_tracks_lines_columns_and_indentation() {
    let s = start(b"ab\n  cd");
    let s = s.advance_by(2);
    assert_eq!((s.line, s.column, s.indent_col, s.is_indenting), (0, 2, 0, false));
    let s = s.advance();
    assert_eq!((s.line, s.column, s.indent_col, s.is_indenting), (1, 0, 0, true));
    let s = s.advance_by(2);
    assert_eq!((s.line, s.column, s.indent_col, s.is_indenting), (1, 2, 2, true));
    let s = s.advance();
    assert_eq!((s.line, s.column, s.indent_col, s.is_indenting), (1, 3, 2, false));
    let s = s.advance();
    assert!(s.at_end());
    assert_eq!(s.peek(), None);
}

#[test]
fn line_that_is_too_long_is_refused() {
    let fits = vec![b'a'; 65534];
    assert!(State::new(&fits, Attempting::Module).is_ok());
    let too_long = vec![b'a'; 65535];
    assert_eq!(State::new(&too_long, Attempting::Module).err(), Some(BadInputError::LineTooLong));
    let mut two_lines = vec![b'a'; 65534];
    two_lines.push(b'\n');
    two_lines.extend(vec![b'b'; 65534]);
    assert!(State::new(&two_lines, Attempting::Module).is_ok());
}

#[test]
fn words_are_matched_at_the_cursor() {
    let s = start(b"->x");
    assert!(s.word1(b'-').is_some());
    assert!(s.word1(b'>').is_none());
    assert_eq!(s.word2(b'-', b'>').map(|s| s.offset), Some(2));
    assert!(s.word2(b'-', b'-').is_none());
    assert!(s.starts_with(b"->x"));
    assert!(!s.starts_with(b"->xy"));
    assert_eq!(s.ascii_string(b"->").map(|s| s.column), Some(2));
    assert!(s.ascii_string(b"=>").is_none());
}

#[test]
fn reserved_word_must_end_where_it_ends() {
    assert_eq!(start(b"if x").keyword_if().map(|s| s.offset), Some(2));
    assert_eq!(start(b"if").keyword_if().map(|s| s.offset), Some(2));
    assert_eq!(start(b"if\n").keyword_if().map(|s| s.offset), Some(2));
    assert!(start(b"iffy").keyword_if().is_none());
    assert!(start(b"when(").keyword_when().is_none());
    assert_eq!(start(b"when#").keyword_when().map(|s| s.offset), Some(4));
    assert!(reserved_keyword(start(b"iffy")).is_ok());
    assert!(reserved_keyword(start(b"as")).is_ok());
    assert!(reserved_keyword(start(b"ax")).is_err());
}

#[test]
fn white_space_collects_line_breaks_and_comments() {
    let arena = Bump::new();
    let input = b"  \n # one\n## two\n  x";
    let (progress, items, end) = space0(0, &arena, start(input)).unwrap();
    assert_eq!(progress, Progress::MadeProgress);
    assert_eq!(
        items,
        &[
            CommentOrNewline::Newline,
            CommentOrNewline::LineComment(b" one"),
            CommentOrNewline::DocComment(b" two"),
        ]
    );
    assert_eq!(end.offset, input.len() - 1);
    assert_eq!((end.line, end.column, end.indent_col), (3, 2, 2));
}

#[test]
fn white_space_may_be_empty_unless_required() {
    let arena = Bump::new();
    let (progress, items, end) = space0(0, &arena, start(b"x")).unwrap();
    assert_eq!((progress, items.len(), end.offset), (Progress::NoProgress, 0, 0));
    match space1(0, &arena, start(b"x")) {
        Err((Progress::NoProgress, SpaceProblem::Expected, s)) => assert_eq!(s.offset, 0),
        other => panic!("unexpected {:?}", other),
    }
    let (_, items, end) = space1(0, &arena, start(b" x")).unwrap();
    assert_eq!((items.len(), end.offset), (0, 1));
}

#[test]
fn white_space_refuses_a_line_that_is_outdented() {
    let arena = Bump::new();
    match space0(3, &arena, start(b" \n  x")) {
        Err((Progress::MadeProgress, SpaceProblem::Outdented, s)) => {
            assert_eq!((s.line, s.column), (1, 2))
        }
        other => panic!("unexpected {:?}", other),
    }
    assert!(space0(2, &arena, start(b" \n  x")).is_ok());
    // Without a line break the indentation is not looked at.
    assert!(space0(9, &arena, start(b"  x")).is_ok());
}

#[test]
fn tab_in_white_space_is_bad_input() {
    let arena = Bump::new();
    match space0(0, &arena, start(b" \tx")) {
        Err((Progress::MadeProgress, SpaceProblem::BadInput(BadInputError::HasTab), s)) => {
            assert_eq!(s.offset, 1)
        }
        other => panic!("unexpected {:?}", other),
    }
}

#[test]
fn comment_at_the_end_of_input_is_kept() {
    let arena = Bump::new();
    let (_, items, end) = space0(0, &arena, start(b"#last")).unwrap();
    assert_eq!(items, &[CommentOrNewline::LineComment(b"last")]);
    assert_eq!(end.offset, 5);
}

#[test]
fn every_binary_operator_is_read_in_its_written_form() {
    let ops: [(&[u8], BinOp, usize); 17] = [
        (b"|>", BinOp::Pizza, 2),
        (b"==", BinOp::Equals, 2),
        (b"!=", BinOp::NotEquals, 2),
        (b"&&", BinOp::And, 2),
        (b"||", BinOp::Or, 2),
        (b"+", BinOp::Plus, 1),
        (b"*", BinOp::Star, 1),
        (b"-", BinOp::Minus, 1),
        (b"//", BinOp::DoubleSlash, 2),
        (b"/", BinOp::Slash, 1),
        (b"<=", BinOp::LessThanOrEq, 2),
        (b"<", BinOp::LessThan, 1),
        (b">=", BinOp::GreaterThanOrEq, 2),
        (b">", BinOp::GreaterThan, 1),
        (b"^", BinOp::Caret, 1),
        (b"%%", BinOp::DoublePercent, 2),
        (b"%", BinOp::Percent, 1),
    ];
    for (text, op, width) in ops {
        let mut input = text.to_vec();
        input.extend_from_slice(b" 1");
        let (found, end) = binop(start(&input)).unwrap();
        assert_eq!(found, op);
        assert_eq!(end.offset, width);
    }
    // A minus is the operator whatever follows it.
    let (found, end) = binop(start(b"->")).unwrap();
    assert_eq!(found, BinOp::Minus);
    assert_eq!(end.offset, 1);
    let (found, end) = binop(start(b"-")).unwrap();
    assert_eq!(found, BinOp::Minus);
    assert_eq!(end.offset, 1);
    assert!(binop(start(b"= 1")).is_none());
    assert!(binop(start(b"")).is_none());
    assert!(binop(start(b"|")).is_none());
}

#[test]
fn equals_of_a_definition_is_not_the_start_of_another_sign() {
    assert_eq!(equals_for_def(start(b"= 1")).map(|(_, _, s)| s.offset).ok(), Some(1));
    assert_eq!(equals_for_def(start(b"=")).map(|(_, _, s)| s.offset).ok(), Some(1));
    match equals_for_def(start(b"== 1")) {
        Err((Progress::NoProgress, SyntaxError::ConditionFailed, s)) => assert_eq!(s.offset, 0),
        other => panic!("unexpected {:?}", other),
    }
    assert!(equals_for_def(start(b"=> 1")).is_err());
    assert!(equals_for_def(start(b"x")).is_err());

    let indented = start(b"  = 1").advance_by(2);
    assert_eq!(equals_with_indent_help(indented).map(|(_, i, s)| (i, s.offset)).ok(), Some((2, 3)));
    assert_eq!(equals_with_indent(indented).map(|(_, i, s)| (i, s.offset)).ok(), Some((2, 3)));
    match equals_with_indent_help(start(b"=")) {
        Err((Progress::NoProgress, EExpr::Equals(0, 0), _)) => {}
        other => panic!("unexpected {:?}", other),
    }
    match equals_with_indent(start(b"=")) {
        Err((Progress::NoProgress, SyntaxError::Eof(_), _)) => {}
        other => panic!("unexpected {:?}", other),
    }
    match equals_with_indent(start(b"==")) {
        Err((Progress::NoProgress, SyntaxError::Unexpected(region), _)) => {
            assert_eq!(region, Region::zero())
        }
        other => panic!("unexpected {:?}", other),
    }
}

#[test]
fn nothing_is_no_expression() {
    let arena = Bump::new();
    match expr(0, &arena, start(b"")) {
        Err((Progress::NoProgress, SyntaxError::Expr(EExpr::Start(0, 0)), s)) => {
            assert_eq!(s.offset, 0)
        }
        other => panic!("unexpected {:?}", other),
    }
    match expr(0, &arena, start(b") x")) {
        Err((Progress::NoProgress, SyntaxError::Expr(EExpr::Start(0, 0)), _)) => {}
        other => panic!("unexpected {:?}", other),
    }
    match fail_expr_start::<()>(start(b"x")) {
        Err((Progress::NoProgress, SyntaxError::Expr(EExpr::Start(0, 0)), _)) => {}
        other => panic!("unexpected {:?}", other),
    }
}

#[test]
fn identifiers_of_every_kind() {
    let arena = Bump::new();
    assert_eq!(parse_all(&arena, b"foo"), var(b"foo"));
    assert_eq!(parse_all(&arena, b"Foo"), Expr::GlobalTag(b"Foo"));
    assert_eq!(parse_all(&arena, b"@Foo"), Expr::PrivateTag(b"@Foo"));
    assert_eq!(parse_all(&arena, b".foo"), Expr::AccessorFunction(b"foo"));
    assert_eq!(
        parse_all(&arena, b"Foo.Bar.baz"),
        Expr::Var { module_name: b"Foo.Bar", ident: b"baz" }
    );
    assert_eq!(parse_all(&arena, b"Foo.Bar"), Expr::MalformedIdent(b"Foo.Bar"));
    assert_eq!(parse_all(&arena, b"ifBlah"), var(b"ifBlah"));
    let (_, parsed, end) = ident_without_apply(&arena, start(b"foo bar")).unwrap();
    assert_eq!((parsed, end.offset), (var(b"foo"), 3));
}

#[test]
fn field_access_nests_to_the_left() {
    let arena = Bump::new();
    let a = var(b"a");
    let ab = Expr::Access(&a, b"b");
    assert_eq!(parse_all(&arena, b"a.b.c"), Expr::Access(&ab, b"c"));
    let inner = var(b"foo");
    let parens = Expr::ParensAround(&inner);
    assert_eq!(parse_all(&arena, b"(foo).bar"), Expr::Access(&parens, b"bar"));
}

#[test]
fn number_literals_of_every_kind() {
    let arena = Bump::new();
    assert_eq!(parse_all(&arena, b"42"), Expr::Num(b"42"));
    assert_eq!(parse_all(&arena, b"1_000"), Expr::Num(b"1_000"));
    assert_eq!(parse_all(&arena, b"-7"), Expr::Num(b"-7"));
    assert_eq!(parse_all(&arena, b"3.14"), Expr::Float(b"3.14"));
    assert_eq!(parse_all(&arena, b"1e9"), Expr::Float(b"1e9"));
    assert_eq!(parse_all(&arena, b"2.5e-3"), Expr::Float(b"2.5e-3"));
    assert_eq!(
        parse_all(&arena, b"0xFF"),
        Expr::NonBase10Int { string: b"FF", base: Base::Hex, is_negative: false }
    );
    assert_eq!(
        parse_all(&arena, b"-0o17"),
        Expr::NonBase10Int { string: b"17", base: Base::Octal, is_negative: true }
    );
    assert_eq!(
        parse_all(&arena, b"0b1010_1010"),
        Expr::NonBase10Int { string: b"1010_1010", base: Base::Binary, is_negative: false }
    );
}

#[test]
fn string_literals_with_and_without_escapes() {
    let arena = Bump::new();
    assert_eq!(parse_all(&arena, b"\"\""), Expr::Str(StrLiteral::PlainLine(b"")));
    assert_eq!(parse_all(&arena, b"\"a b\""), Expr::Str(StrLiteral::PlainLine(b"a b")));
    match parse_all(&arena, b"\"a\\nb\\\"\"") {
        Expr::Str(StrLiteral::Line(segments)) => assert_eq!(
            segments.to_vec(),
            vec![
                StrSegment::Plaintext(b"a"),
                StrSegment::EscapedChar(EscapedChar::Newline),
                StrSegment::Plaintext(b"b"),
                StrSegment::EscapedChar(EscapedChar::Quote),
            ]
        ),
        other => panic!("unexpected {:?}", other),
    }
    match expr(0, &arena, start(b"\"abc")) {
        Err((Progress::MadeProgress, SyntaxError::Expr(EExpr::Str(EString::EndlessSingle(0, 4), _, _)), _)) => {}
        other => panic!("unexpected {:?}", other),
    }
    match expr(0, &arena, start(b"\"a\\qb\"")) {
        Err((Progress::MadeProgress, SyntaxError::Expr(EExpr::Str(EString::UnknownEscape(0, 2), _, _)), _)) => {}
        other => panic!("unexpected {:?}", other),
    }
}

#[test]
fn application_collects_arguments_greedily() {
    let arena = Bump::new();
    match parse_all(&arena, b"foo bar 1 \"s\"") {
        Expr::Apply(f, args, CalledVia::Space) => {
            assert_eq!(f.value, var(b"foo"));
            assert_eq!(f.region, Region::new(0, 0, 0, 3));
            let args = args.to_vec();
            assert_eq!(args.len(), 3);
            assert_eq!(args[0].value, var(b"bar"));
            assert_eq!(args[0].region, Region::new(0, 0, 4, 7));
            assert_eq!(args[1].value, Expr::Num(b"1"));
            assert_eq!(args[2].value, Expr::Str(StrLiteral::PlainLine(b"s")));
        }
        other => panic!("unexpected {:?}", other),
    }
}

#[test]
fn reserved_word_ends_the_arguments() {
    let arena = Bump::new();
    let (_, parsed, end) = expr(0, &arena, start(b"foo bar then")).unwrap();
    assert_eq!(end.offset, 7);
    match parsed {
        Expr::Apply(_, args, _) => assert_eq!(args.to_vec().len(), 1),
        other => panic!("unexpected {:?}", other),
    }
}

#[test]
fn minus_without_space_after_it_negates_an_argument() {
    let arena = Bump::new();
    match parse_all(&arena, b"x -y") {
        Expr::Apply(f, args, _) => {
            assert_eq!(f.value, var(b"x"));
            match args.to_vec()[0].value {
                Expr::UnaryOp(operand, op) => {
                    assert_eq!(op.value, UnaryOp::Negate);
                    assert_eq!(op.region, Region::new(0, 0, 2, 3));
                    assert_eq!(operand.value, var(b"y"));
                }
                other => panic!("unexpected {:?}", other),
            }
        }
        other => panic!("unexpected {:?}", other),
    }
    match parse_all(&arena, b"x- y") {
        Expr::BinOp(parts) => assert_eq!(parts.1.value, BinOp::Minus),
        other => panic!("unexpected {:?}", other),
    }
}

#[test]
fn operators_are_read_flat() {
    let arena = Bump::new();
    match parse_all(&arena, b"a + b * c") {
        Expr::BinOp(parts) => {
            assert_eq!(parts.0.value, var(b"a"));
            assert_eq!(parts.0.region, Region::new(0, 0, 0, 1));
            assert_eq!(parts.1.value, BinOp::Plus);
            assert_eq!(parts.1.region, Region::new(0, 0, 2, 3));
            assert_eq!(parts.2.region, Region::new(0, 0, 4, 9));
            match parts.2.value {
                Expr::BinOp(inner) => {
                    assert_eq!(inner.0.value, var(b"b"));
                    assert_eq!(inner.1.value, BinOp::Star);
                    assert_eq!(inner.2.value, var(b"c"));
                }
                other => panic!("unexpected {:?}", other),
            }
        }
        other => panic!("unexpected {:?}", other),
    }
}

#[test]
fn space_before_an_operator_belongs_to_the_left_operand() {
    let arena = Bump::new();
    match parse_all(&arena, b"a\n  + b") {
        Expr::BinOp(parts) => {
            assert_eq!(parts.0.value, Expr::SpaceAfter(&var(b"a"), &[CommentOrNewline::Newline]));
            assert_eq!(parts.2.value, var(b"b"));
        }
        other => panic!("unexpected {:?}", other),
    }
}

#[test]
fn white_space_without_operator_is_left_unread() {
    let arena = Bump::new();
    let (_, parsed, end) = expr(0, &arena, start(b"a  \n")).unwrap();
    assert_eq!((parsed, end.offset), (var(b"a"), 1));
}

#[test]
fn bang_negates_unless_it_starts_not_equals() {
    let arena = Bump::new();
    match parse_all(&arena, b"!x") {
        Expr::UnaryOp(operand, op) => {
            assert_eq!(op.value, UnaryOp::Not);
            assert_eq!(operand.value, var(b"x"));
        }
        other => panic!("unexpected {:?}", other),
    }
    match parse_all(&arena, b"a != b") {
        Expr::BinOp(parts) => assert_eq!(parts.1.value, BinOp::NotEquals),
        other => panic!("unexpected {:?}", other),
    }
    match parse_all(&arena, b"-x") {
        Expr::UnaryOp(_, op) => assert_eq!(op.value, UnaryOp::Negate),
        other => panic!("unexpected {:?}", other),
    }
}

#[test]
fn parentheses_wrap_and_may_be_applied() {
    let arena = Bump::new();
    assert_eq!(parse_all(&arena, b"(foo)"), Expr::ParensAround(&var(b"foo")));
    assert_eq!(parse_all(&arena, b"( foo )"), Expr::ParensAround(&var(b"foo")));
    match parse_all(&arena, b"(foo bar) baz") {
        Expr::Apply(f, args, _) => {
            assert!(matches!(f.value, Expr::ParensAround(_)));
            assert_eq!(args.to_vec().len(), 1);
        }
        other => panic!("unexpected {:?}", other),
    }
    match expr(0, &arena, start(b"(foo")) {
        Err((Progress::MadeProgress, SyntaxError::Expr(EExpr::InParens(EInParens::End(0, 4), 0, 0)), _)) => {}
        other => panic!("unexpected {:?}", other),
    }
    match expr(0, &arena, start(b"()")) {
        Err((Progress::MadeProgress, SyntaxError::Expr(EExpr::InParens(EInParens::Syntax(inner, 0, 1), 0, 0)), _)) => {
            assert_eq!(*inner, SyntaxError::Expr(EExpr::Start(0, 1)))
        }
        other => panic!("unexpected {:?}", other),
    }
}

#[test]
fn pattern_in_parentheses_begins_a_block() {
    let arena = Bump::new();
    match parse_all(&arena, b"(Pair x y) = p\nx") {
        Expr::Defs(defs, ret) => {
            match defs.to_vec()[0].value {
                Def::Body(pattern, body) => {
                    match bare_pattern(pattern.value) {
                        Pattern::Apply(tag, args) => {
                            assert_eq!(tag.value, Pattern::GlobalTag(b"Pair"));
                            assert_eq!(args.to_vec().len(), 2);
                        }
                        other => panic!("unexpected {:?}", other),
                    }
                    assert_eq!(body.value, var(b"p"));
                }
                other => panic!("unexpected {:?}", other),
            }
            assert_eq!(bare(ret.value), var(b"x"));
        }
        other => panic!("unexpected {:?}", other),
    }
    // What stands in the parentheses must be a pattern.
    match expr(0, &arena, start(b"(a + b) = p\nx")) {
        Err((Progress::MadeProgress, SyntaxError::Expr(EExpr::Syntax(inner, _, _)), _)) => {
            assert_eq!(*inner, SyntaxError::InvalidPattern)
        }
        other => panic!("unexpected {:?}", other),
    }
}

#[test]
fn list_literals() {
    let arena = Bump::new();
    match parse_all(&arena, b"[]") {
        Expr::List { items, .. } => assert!(items.is_empty()),
        other => panic!("unexpected {:?}", other),
    }
    match parse_all(&arena, b"[ 1, two ,\n 3, ]") {
        Expr::List { items, .. } => {
            let items = items.to_vec();
            assert_eq!(items.len(), 3);
            assert_eq!(items[0].value, Expr::Num(b"1"));
            assert_eq!(items[0].region, Region::new(0, 0, 2, 3));
            assert_eq!(items[1].value, var(b"two"));
            assert_eq!(bare(items[2].value), Expr::Num(b"3"));
            assert_eq!(items[2].region, Region::new(1, 1, 1, 2));
        }
        other => panic!("unexpected {:?}", other),
    }
    match expr(0, &arena, start(b"[1 2")) {
        Err((Progress::MadeProgress, SyntaxError::Expr(EExpr::List(EList::End(0, 3), 0, 0)), _)) => {}
        other => panic!("unexpected {:?}", other),
    }
}

#[test]
fn record_literals() {
    let arena = Bump::new();
    match parse_all(&arena, b"{}") {
        Expr::Record { update, fields, .. } => {
            assert!(update.is_none());
            assert!(fields.is_empty());
        }
        other => panic!("unexpected {:?}", other),
    }
    match parse_all(&arena, b"{ x: 1, y ? 2, z }") {
        Expr::Record { update, fields, .. } => {
            assert!(update.is_none());
            let fields = fields.to_vec();
            assert_eq!(fields.len(), 3);
            match fields[0].value {
                AssignedField::RequiredValue(label, _, value) => {
                    assert_eq!(label.value, b"x");
                    assert_eq!(label.region, Region::new(0, 0, 2, 3));
                    assert_eq!(value.value, Expr::Num(b"1"));
                }
                other => panic!("unexpected {:?}", other),
            }
            match fields[1].value {
                AssignedField::OptionalValue(label, _, value) => {
                    assert_eq!(label.value, b"y");
                    assert_eq!(value.value, Expr::Num(b"2"));
                }
                other => panic!("unexpected {:?}", other),
            }
            match fields[2].value {
                AssignedField::LabelOnly(label) => assert_eq!(label.value, b"z"),
                other => panic!("unexpected {:?}", other),
            }
        }
        other => panic!("unexpected {:?}", other),
    }
    match expr(0, &arena, start(b"{ x: 1")) {
        Err((Progress::MadeProgress, SyntaxError::Expr(EExpr::Record(ERecord::End(0, 6), 0, 0)), _)) => {}
        other => panic!("unexpected {:?}", other),
    }
}

#[test]
fn record_update_and_access() {
    let arena = Bump::new();
    match parse_all(&arena, b"{ user & name: \"n\" }") {
        Expr::Record { update, fields, .. } => {
            assert_eq!(update.map(|u| u.value), Some(var(b"user")));
            assert_eq!(fields.to_vec().len(), 1);
        }
        other => panic!("unexpected {:?}", other),
    }
    match parse_all(&arena, b"{ x: 4 }.x") {
        Expr::Access(inner, field) => {
            assert!(matches!(*inner, Expr::Record { .. }));
            assert_eq!(field, b"x");
        }
        other => panic!("unexpected {:?}", other),
    }
}

#[test]
fn closures() {
    let arena = Bump::new();
    match parse_all(&arena, b"\\x -> x") {
        Expr::Closure(params, body) => {
            let params = params.to_vec();
            assert_eq!(params.len(), 1);
            assert_eq!(bare_pattern(params[0].value), Pattern::Identifier(b"x"));
            assert_eq!(params[0].region, Region::new(0, 0, 1, 2));
            assert_eq!(body.value, var(b"x"));
        }
        other => panic!("unexpected {:?}", other),
    }
    match parse_all(&arena, b"\\_, { a, b }, (Ok v) -> v") {
        Expr::Closure(params, _) => {
            let params = params.to_vec();
            assert_eq!(params.len(), 3);
            assert_eq!(bare_pattern(params[0].value), Pattern::Underscore(b""));
            assert!(matches!(bare_pattern(params[1].value), Pattern::RecordDestructure(_)));
            assert!(matches!(bare_pattern(params[2].value), Pattern::Apply(_, _)));
        }
        other => panic!("unexpected {:?}", other),
    }
    match expr(0, &arena, start(b"\\x y")) {
        Err((Progress::MadeProgress, SyntaxError::Expr(EExpr::Lambda(ELambda::Arrow(0, 3), 0, 0)), _)) => {}
        other => panic!("unexpected {:?}", other),
    }
    match expr(0, &arena, start(b"\\ -> x")) {
        Err((Progress::MadeProgress, SyntaxError::Expr(EExpr::Lambda(ELambda::Arg(0, 2), 0, 0)), _)) => {}
        other => panic!("unexpected {:?}", other),
    }
}

#[test]
fn if_with_chained_conditions() {
    let arena = Bump::new();
    match parse_all(&arena, b"if a then 1 else if b then 2 else 3") {
        Expr::If(branches, otherwise) => {
            let branches = branches.to_vec();
            assert_eq!(branches.len(), 2);
            assert_eq!(branches[0].0.value, var(b"a"));
            assert_eq!(branches[0].1.value, Expr::Num(b"1"));
            assert_eq!(branches[1].0.value, var(b"b"));
            assert_eq!(branches[1].1.value, Expr::Num(b"2"));
            assert_eq!(otherwise.value, Expr::Num(b"3"));
        }
        other => panic!("unexpected {:?}", other),
    }
    match expr(0, &arena, start(b"if a 1")) {
        Err((Progress::MadeProgress, SyntaxError::Expr(EExpr::If(EIf::ThenToken(0, 6), 0, 0)), _)) => {}
        other => panic!("unexpected {:?}", other),
    }
    match expr(0, &arena, start(b"if a then 1")) {
        Err((Progress::MadeProgress, SyntaxError::Expr(EExpr::If(EIf::Else(0, 11), 0, 0)), _)) => {}
        other => panic!("unexpected {:?}", other),
    }
}

#[test]
fn when_with_alternatives_and_guard() {
    let arena = Bump::new();
    let input = b"when x is\n    1 | 2 if ok -> a\n    Ok v -> v";
    match parse_all(&arena, input) {
        Expr::When(_, branches) => {
            let branches = branches.to_vec();
            assert_eq!(branches.len(), 2);
            let alternatives = branches[0].patterns.to_vec();
            assert_eq!(alternatives.len(), 2);
            assert_eq!(bare_pattern(alternatives[0].value), Pattern::NumLiteral(b"1"));
            assert_eq!(bare_pattern(alternatives[1].value), Pattern::NumLiteral(b"2"));
            assert_eq!(branches[0].guard.map(|g| bare(g.value)), Some(var(b"ok")));
            assert_eq!(branches[0].value.value, var(b"a"));
            match bare_pattern(branches[1].patterns.to_vec()[0].value) {
                Pattern::Apply(tag, args) => {
                    assert_eq!(tag.value, Pattern::GlobalTag(b"Ok"));
                    assert_eq!(args.to_vec().len(), 1);
                }
                other => panic!("unexpected {:?}", other),
            }
        }
        other => panic!("unexpected {:?}", other),
    }
}

#[test]
fn more_indented_line_continues_the_branch() {
    let arena = Bump::new();
    match parse_all(&arena, b"when x is\n    1 -> a\n      2") {
        Expr::When(_, branches) => {
            let branches = branches.to_vec();
            assert_eq!(branches.len(), 1);
            assert!(matches!(branches[0].value.value, Expr::Apply(_, _, _)));
        }
        other => panic!("unexpected {:?}", other),
    }
}

#[test]
fn when_branch_in_another_column_is_misaligned() {
    let arena = Bump::new();
    match expr(0, &arena, start(b"when x is\n    1 -> 10\n      2 -> 20")) {
        Err((Progress::MadeProgress, SyntaxError::Expr(EExpr::When(EWhen::PatternAlignment(by, _, _), 0, 0)), _)) => {
            assert_eq!(by, -2)
        }
        other => panic!("unexpected {:?}", other),
    }
    match expr(0, &arena, start(b"when x 1")) {
        Err((Progress::MadeProgress, SyntaxError::Expr(EExpr::When(EWhen::Is(0, 8), 0, 0)), _)) => {}
        other => panic!("unexpected {:?}", other),
    }
}

#[test]
fn body_must_be_indented_more_than_its_pattern() {
    let arena = Bump::new();
    match expr(0, &arena, start(b"x =\n1\nx")) {
        Err((Progress::MadeProgress, SyntaxError::Expr(EExpr::Def(inner, _, _)), _)) => {
            assert_eq!(*inner, SyntaxError::Expr(EExpr::IndentDefBody(1, 0)))
        }
        other => panic!("unexpected {:?}", other),
    }
    assert!(expr(0, &arena, start(b"x =\n 1\nx")).is_ok());
    match def(0, &arena, start(b"x =\n1")) {
        Err((Progress::MadeProgress, SyntaxError::Expr(EExpr::IndentDefBody(1, 0)), _)) => {}
        other => panic!("unexpected {:?}", other),
    }
}

#[test]
fn block_to_the_left_of_the_minimum_is_outdented() {
    let arena = Bump::new();
    match expr(2, &arena, start(b"x = 1\nx")) {
        Err((Progress::MadeProgress, SyntaxError::Expr(EExpr::Def(inner, _, _)), _)) => {
            assert_eq!(*inner, SyntaxError::OutdentedTooFar)
        }
        other => panic!("unexpected {:?}", other),
    }
}

#[test]
fn arguments_before_equals_are_an_error_of_their_own() {
    let arena = Bump::new();
    match expr(0, &arena, start(b"foo a b = 1\nfoo")) {
        Err((Progress::MadeProgress, SyntaxError::Expr(EExpr::ElmStyleFunction(region, _, _)), _)) => {
            assert_eq!(region, Region::new(0, 0, 4, 7))
        }
        other => panic!("unexpected {:?}", other),
    }
}

#[test]
fn pattern_without_sign_is_no_definition() {
    let arena = Bump::new();
    match def(0, &arena, start(b"i")) {
        Err((Progress::NoProgress, _, s)) => assert_eq!(s.offset, 0),
        other => panic!("unexpected {:?}", other),
    }
    match def(0, &arena, start(b"i + 1")) {
        Err((Progress::NoProgress, _, s)) => assert_eq!(s.offset, 0),
        other => panic!("unexpected {:?}", other),
    }
}

#[test]
fn annotation_is_joined_to_the_body_of_the_same_name() {
    let arena = Bump::new();
    match parse_all(&arena, b"x : Int\nx = 1\nx") {
        Expr::Defs(defs, _) => {
            let defs = defs.to_vec();
            assert_eq!(defs.len(), 1);
            match defs[0].value {
                Def::AnnotatedBody { ann_pattern, ann_type, comment, body_pattern, body_expr } => {
                    assert_eq!(bare_pattern(ann_pattern.value), Pattern::Identifier(b"x"));
                    assert!(matches!(ann_type.value, TypeAnnotation::Apply(b"", b"Int", _)));
                    assert!(comment.is_none());
                    assert_eq!(bare_pattern(body_pattern.value), Pattern::Identifier(b"x"));
                    assert_eq!(body_expr.value, Expr::Num(b"1"));
                }
                other => panic!("unexpected {:?}", other),
            }
        }
        other => panic!("unexpected {:?}", other),
    }
}

#[test]
fn annotation_of_another_name_stands_alone() {
    let arena = Bump::new();
    match parse_all(&arena, b"x : Int\ny = 1\ny") {
        Expr::Defs(defs, _) => {
            let defs = defs.to_vec();
            assert_eq!(defs.len(), 2);
            assert!(matches!(defs[0].value, Def::Annotation(_, _)));
            match defs[1].value {
                Def::SpaceBefore(inner, spaces) => {
                    assert!(matches!(*inner, Def::Body(_, _)));
                    assert_eq!(spaces, &[CommentOrNewline::Newline]);
                }
                other => panic!("unexpected {:?}", other),
            }
        }
        other => panic!("unexpected {:?}", other),
    }
}

#[test]
fn annotation_of_a_tag_is_an_alias() {
    let arena = Bump::new();
    match def(0, &arena, start(b"Pair a b : { first : a, second : b }")).unwrap().1 {
        Def::Alias { name, vars, ann } => {
            assert_eq!(name.value, b"Pair");
            assert_eq!(vars.to_vec().len(), 2);
            match ann.value {
                TypeAnnotation::Record { fields, .. } => assert_eq!(fields.to_vec().len(), 2),
                other => panic!("unexpected {:?}", other),
            }
        }
        other => panic!("unexpected {:?}", other),
    }
    match def(0, &arena, start(b"f : Int, Str -> List a")).unwrap().1 {
        Def::Annotation(pattern, ann) => {
            assert_eq!(bare_pattern(pattern.value), Pattern::Identifier(b"f"));
            match ann.value {
                TypeAnnotation::Function(args, ret) => {
                    assert_eq!(args.to_vec().len(), 2);
                    assert!(matches!(ret.value, TypeAnnotation::Apply(b"", b"List", _)));
                }
                other => panic!("unexpected {:?}", other),
            }
        }
        other => panic!("unexpected {:?}", other),
    }
}

#[test]
fn nested_block_in_a_closure_body() {
    let arena = Bump::new();
    match parse_all(&arena, b"f = \\a ->\n    y = a\n    y\nf") {
        Expr::Defs(defs, ret) => {
            assert_eq!(defs.to_vec().len(), 1);
            assert_eq!(bare(ret.value), var(b"f"));
        }
        other => panic!("unexpected {:?}", other),
    }
}

#[test]
fn arrow_ends_an_expression() {
    let arena = Bump::new();
    let (_, parsed, end) = expr(0, &arena, start(b"x -> y")).unwrap();
    assert_eq!(parsed, var(b"x"));
    assert_eq!(end.offset, 1);
    let (_, parsed, end) = expr(0, &arena, start(b"x->y")).unwrap();
    assert_eq!(parsed, var(b"x"));
    assert_eq!(end.offset, 1);
    // A minus that no `>` follows is the operator.
    let (_, parsed, end) = expr(0, &arena, start(b"x - y")).unwrap();
    assert_eq!(end.offset, 5);
    match parsed {
        Expr::BinOp(parts) => assert_eq!(parts.1.value, BinOp::Minus),
        other => panic!("unexpected {:?}", other),
    }
}
