use maud_lints::tree::{Block, Expr, ExprKind, Lit, LitKind, Mutability, StrStyle};
use maud_lints::resolve::{DefId, Resolver};
use maud_lints::span::Span;
use maud_lints::util::match_marker_type;

fn at(kind: ExprKind, lo: u32, hi: u32) -> Expr {
    Expr { kind, span: Span::new(lo, hi) }
}

fn string(text: &str, lo: u32, hi: u32) -> Expr {
    let kind = LitKind::Str(text.to_string(), StrStyle::Cooked);
    let lit = Lit { kind, span: Span::new(lo, hi) };
    at(ExprKind::Lit(lit), lo, hi)
}

fn number(value: u128, lo: u32, hi: u32) -> Expr {
    at(ExprKind::Lit(Lit { kind: LitKind::Int(value), span: Span::new(lo, hi) }), lo, hi)
}

fn path_to(def: Option<DefId>) -> Expr {
    at(ExprKind::Path(def), 0, 9)
}

fn call(callee: Expr, args: Vec<Expr>) -> Expr {
    at(ExprKind::Call(Box::new(callee), args), 0, 40)
}

/// A table with the two markers and one unrelated function.
fn markers() -> (Resolver, DefId, DefId, DefId) {
    let mut cx = Resolver::new();
    let own: fn(&[&str]) -> Vec<String> = |s| s.iter().map(|s| s.to_string()).collect();
    let attribute = cx.define(own(&["maud", "marker", "attribute"]));
    let text = cx.define(own(&["maud", "marker", "text"]));
    let other = cx.define(own(&["other", "marker", "attribute"]));
    (cx, attribute, text, other)
}

#[test]
fn marker_call_yields_its_arguments() {
    let (cx, attribute, _, _) = markers();
    let expr = call(path_to(Some(attribute)), vec![string("a", 10, 13), number(7, 15, 16)]);
    let expected = vec![string("a", 10, 13), number(7, 15, 16)];
    let found = match_marker_type(&cx, &expr, "attribute");
    assert_eq!(found, Some(&expected[..]));
}

#[test]
fn marker_call_of_another_kind_is_no_match() {
    let (cx, attribute, text, _) = markers();
    let expr = call(path_to(Some(attribute)), vec![string("a", 10, 13), number(7, 15, 16)]);
    assert_eq!(match_marker_type(&cx, &expr, "text"), None);
    let expr = call(path_to(Some(text)), vec![string("a", 10, 13)]);
    assert_eq!(match_marker_type(&cx, &expr, "attribute"), None);
    assert!(match_marker_type(&cx, &expr, "text").is_some());
}

#[test]
fn marker_call_hands_out_the_nodes_themselves() {
    let (cx, attribute, _, _) = markers();
    let expr = call(path_to(Some(attribute)), vec![string("a", 10, 13), number(7, 15, 16)]);
    let found = match_marker_type(&cx, &expr, "attribute").unwrap();
    match &expr.kind {
        ExprKind::Call(_, args) => {
            assert_eq!(found.len(), 2);
            assert!(std::ptr::eq(found.as_ptr(), args.as_ptr()));
        },
        _ => unreachable!(),
    }
}

#[test]
fn marker_call_without_arguments_yields_an_empty_list() {
    let (cx, attribute, _, _) = markers();
    let expr = call(path_to(Some(attribute)), Vec::new());
    let found = match_marker_type(&cx, &expr, "attribute");
    assert_eq!(found, Some(&[][..]));
}

#[test]
fn marker_kind_must_match_whole() {
    let (cx, attribute, _, _) = markers();
    let expr = call(path_to(Some(attribute)), vec![string("a", 10, 13)]);
    assert_eq!(match_marker_type(&cx, &expr, "attr"), None);
    assert_eq!(match_marker_type(&cx, &expr, "attributes"), None);
    assert_eq!(match_marker_type(&cx, &expr, "Attribute"), None);
    assert_eq!(match_marker_type(&cx, &expr, ""), None);
}

#[test]
fn call_of_a_namesake_elsewhere_is_no_match() {
    let (cx, _, _, other) = markers();
    let expr = call(path_to(Some(other)), vec![string("a", 10, 13)]);
    assert_eq!(match_marker_type(&cx, &expr, "attribute"), None);
}

#[test]
fn literal_is_no_marker_call() {
    let (cx, _, _, _) = markers();
    for kind in ["attribute", "text", ""] {
        assert_eq!(match_marker_type(&cx, &string("attribute", 0, 11), kind), None);
        assert_eq!(match_marker_type(&cx, &number(1, 0, 1), kind), None);
    }
}

#[test]
fn method_call_is_no_marker_call() {
    let (cx, attribute, _, _) = markers();
    let args = vec![path_to(Some(attribute)), string("a", 10, 13)];
    let expr = at(ExprKind::MethodCall("attribute".to_string(), args), 0, 40);
    for kind in ["attribute", "text", ""] {
        assert_eq!(match_marker_type(&cx, &expr, kind), None);
    }
}

#[test]
fn call_through_something_else_than_a_path_is_no_marker_call() {
    let (cx, attribute, _, _) = markers();
    let through_call = call(call(path_to(Some(attribute)), Vec::new()), vec![string("a", 10, 13)]);
    let through_borrow = call(
        at(ExprKind::AddrOf(Mutability::Immutable, Box::new(path_to(Some(attribute)))), 0, 9),
        vec![string("a", 10, 13)],
    );
    let inner = Block {
        stmts: Vec::new(),
        expr: Some(Box::new(path_to(Some(attribute)))),
        span: Span::new(0, 9),
    };
    let through_block = call(at(ExprKind::Block(inner), 0, 9), vec![string("a", 10, 13)]);
    let through_other = call(at(ExprKind::Other, 0, 9), vec![string("a", 10, 13)]);
    for kind in ["attribute", "text", ""] {
        assert_eq!(match_marker_type(&cx, &through_call, kind), None);
        assert_eq!(match_marker_type(&cx, &through_borrow, kind), None);
        assert_eq!(match_marker_type(&cx, &through_block, kind), None);
        assert_eq!(match_marker_type(&cx, &through_other, kind), None);
    }
}

#[test]
fn bare_path_is_no_marker_call() {
    let (cx, attribute, _, _) = markers();
    assert_eq!(match_marker_type(&cx, &path_to(Some(attribute)), "attribute"), None);
}

#[test]
fn call_of_a_path_without_definition_is_no_match() {
    let (cx, _, _, _) = markers();
    let expr = call(path_to(None), vec![string("a", 10, 13)]);
    assert_eq!(match_marker_type(&cx, &expr, "attribute"), None);
}

#[test]
fn call_of_an_unknown_definition_is_no_match() {
    let (cx, _, _, other) = markers();
    let expr = call(path_to(Some(DefId { index: other.index + 1 })), vec![string("a", 10, 13)]);
    assert_eq!(match_marker_type(&cx, &expr, "attribute"), None);
    let empty = Resolver::new();
    let expr = call(path_to(Some(DefId { index: 0 })), vec![string("a", 10, 13)]);
    assert_eq!(match_marker_type(&empty, &expr, "attribute"), None);
}

#[test]
fn marker_call_gives_the_same_answer_twice() {
    let (cx, attribute, _, _) = markers();
    let expr = call(path_to(Some(attribute)), vec![string("a", 10, 13), number(7, 15, 16)]);
    let first = match_marker_type(&cx, &expr, "attribute");
    let second = match_marker_type(&cx, &expr, "attribute");
    assert_eq!(first, second);
    assert_eq!(match_marker_type(&cx, &expr, "text"), match_marker_type(&cx, &expr, "text"));
    assert_eq!(expr, call(path_to(Some(attribute)), vec![string("a", 10, 13), number(7, 15, 16)]));
}
