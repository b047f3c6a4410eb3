use bumpalo::Bump;
use roc_front::ast::{Attempting, Expr, Pattern};
use roc_front::expr::expr;
use roc_front::pattern::loc_pattern;
use roc_front::state::State;
use roc_front::to_pattern::expr_to_pattern;

fn read_both<'a>(arena: &'a Bump, input: &'a [u8]) -> (Expr<'a>, Pattern<'a>) {
    let state = State::new(input, Attempting::Module).unwrap();
    let (_, e, after_expr) = expr(0, arena, state).unwrap();
    let (_, p, after_pattern) = loc_pattern(0, arena, state).unwrap();
    assert_eq!(after_expr.offset, input.len());
    assert_eq!(after_pattern.offset, input.len());
    (e, p.value)
}

fn reads_alike(input: &[u8]) {
    let arena = Bump::new();
    let (e, p) = read_both(&arena, input);
    assert_eq!(expr_to_pattern(&arena, &e), Ok(p), "{}", String::from_utf8_lossy(input));
}

#[test]
fn numbers_read_alike_as_expressions_and_as_patterns() {
    reads_alike(b"42");
    reads_alike(b"-7");
    reads_alike(b"1_000");
    reads_alike(b"3.25");
    reads_alike(b"0x1F");
    reads_alike(b"0b101");
    let arena = Bump::new();
    let (e, p) = read_both(&arena, b"0o17");
    assert_eq!(e, Expr::NonBase10Int { string: b"17", base: roc_front::ast::Base::Octal, is_negative: false });
    assert_eq!(p, Pattern::NonBase10Literal { string: b"17", base: roc_front::ast::Base::Octal, is_negative: false });
}

#[test]
fn strings_read_alike_as_expressions_and_as_patterns() {
    reads_alike(b"\"\"");
    reads_alike(b"\"abc\"");
    reads_alike(b"\"a\\nb\"");
}

#[test]
fn identifiers_read_alike_as_expressions_and_as_patterns() {
    reads_alike(b"x");
    reads_alike(b"Foo");
    reads_alike(b"@Foo");
    reads_alike(b"Mod.x");
    let arena = Bump::new();
    let (e, p) = read_both(&arena, b"count");
    assert_eq!(e, Expr::Var { module_name: b"", ident: b"count" });
    assert_eq!(p, Pattern::Identifier(b"count"));
}

/// What `Debug` prints of a pattern, without the regions.
fn shape(p: &Pattern<'_>) -> String {
    let printed = format!("{:?}", p);
    let mut out = String::new();
    let mut rest = printed.as_str();
    while let Some(at) = rest.find("region: Region {") {
        out.push_str(&rest[..at]);
        let close = rest[at..].find('}').unwrap();
        rest = &rest[at + close + 1..];
    }
    out.push_str(rest);
    out
}

fn reads_alike_but_for_regions(input: &[u8]) {
    let arena = Bump::new();
    let (e, p) = read_both(&arena, input);
    let converted = expr_to_pattern(&arena, &e).unwrap();
    assert_eq!(shape(&converted), shape(&p), "{}", String::from_utf8_lossy(input));
}

#[test]
fn tags_with_arguments_read_alike() {
    reads_alike(b"Pair x y");
    reads_alike(b"Pair 1 \"a\"");
    reads_alike(b"(x)");
    reads_alike(b"( Foo x )");
}

#[test]
fn nested_parts_read_alike_but_for_their_regions() {
    // An expression in parentheses bears the region of what is inside
    // them; a pattern in parentheses that is read as such bears the region
    // of the parentheses.
    reads_alike_but_for_regions(b"Ok (Pair x y)");
    // The region of a field of a record reaches over the white space
    // after its label; that of a field of a destructure ends with the
    // label.
    reads_alike_but_for_regions(b"{ x, y }");
    reads_alike_but_for_regions(b"{x}");
    reads_alike_but_for_regions(b"{ x: y }");
    reads_alike_but_for_regions(b"{ x: Pair a b, z }");
}

#[test]
fn what_is_no_pattern_is_refused() {
    let arena = Bump::new();
    for input in [&b"x + 1"[..], b"\\x -> x", b"{ r & x: 1 }", b".name", b"[ x ]", b"x.y"] {
        let state = State::new(input, Attempting::Module).unwrap();
        let (_, e, _) = expr(0, &arena, state).unwrap();
        assert_eq!(
            expr_to_pattern(&arena, &e),
            Err(roc_front::errors::SyntaxError::InvalidPattern),
            "{}",
            String::from_utf8_lossy(input)
        );
    }
}

#[test]
fn some_patterns_are_expressions_that_are_no_patterns() {
    // A minus before an argument negates it in an expression and is the
    // sign of the number in a pattern; a field read from a variable is an
    // expression and a malformed pattern.
    for input in [&b"Foo -1"[..], b"x.y"] {
        let arena = Bump::new();
        let (e, _) = read_both(&arena, input);
        assert_eq!(
            expr_to_pattern(&arena, &e),
            Err(roc_front::errors::SyntaxError::InvalidPattern),
            "{}",
            String::from_utf8_lossy(input)
        );
    }
}

#[test]
fn malformed_forms_are_no_patterns() {
    let arena = Bump::new();
    for e in [Expr::MalformedIdent(b"a.B"), Expr::MalformedClosure] {
        assert_eq!(
            expr_to_pattern(&arena, &e),
            Err(roc_front::errors::SyntaxError::InvalidPattern)
        );
    }
}
