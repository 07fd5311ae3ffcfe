//! The matchers and extractors.
//!
//! Each of them reads an expression that is only borrowed, and answers with a
//! value or with `None`. What each answers is a spec function of the same
//! arguments: [`def_path_is`], [`marker_call`], [`string_concat`] and
//! [`block_attrs`]. The lemmas behind the functions say what follows for
//! callers.

use vstd::prelude::*;
use vstd::seq_lib::lemma_flatten_concat;
use vstd::string::StringExecFns;
use crate::tree::{Expr, ExprKind, Lit, LitKind, Mutability, Stmt, StmtKind, StrStyle};
use crate::resolve::{segments, DefId, DefPaths, Resolver};
use crate::span::Span;
use crate::text::str_eq;

verus! {

/// The characters of each segment of a path that a caller asks for.
pub open spec fn str_segments(path: Seq<&str>) -> Seq<Seq<char>> {
    path.map_values(|segment: &str| segment@)
}

/// Whether `defs` knows `def_id`, and gives it exactly the absolute path
/// `path`.
pub open spec fn def_path_is(defs: DefPaths, def_id: DefId, path: Seq<Seq<char>>) -> bool {
    defs.contains_key(def_id) && defs[def_id] == path
}

/// The absolute path of the marker function of the kind `marker_type`.
pub open spec fn marker_path(marker_type: Seq<char>) -> Seq<Seq<char>> {
    seq!["maud"@, "marker"@, marker_type]
}

/// The arguments of `expr`, where `expr` is a call whose callee is a plain
/// path that resolves to the marker function of the kind `marker_type`.
pub open spec fn marker_call(defs: DefPaths, expr: Expr, marker_type: Seq<char>) -> Option<
    Seq<Expr>,
> {
    match expr.kind {
        ExprKind::Call(callee, args) => match callee.kind {
            ExprKind::Path(Some(def_id)) => if def_path_is(defs, def_id, marker_path(marker_type)) {
                Some(args@)
            } else {
                None
            },
            _ => None,
        },
        _ => None,
    }
}

/// The text of `expr` and the place of the literal, where `expr` is a cooked
/// string literal.
pub open spec fn cooked_str(expr: Expr) -> Option<(Seq<char>, Span)> {
    match expr.kind {
        ExprKind::Lit(Lit { kind: LitKind::Str(text, StrStyle::Cooked), span }) => Some(
            (text@, span),
        ),
        _ => None,
    }
}

/// The elements of `expr`, where `expr` is an immutable borrow of an array.
pub open spec fn borrowed_array(expr: Expr) -> Option<Seq<Expr>> {
    match expr.kind {
        ExprKind::AddrOf(Mutability::Immutable, inner) => match inner.kind {
            ExprKind::Array(elems) => Some(elems@),
            _ => None,
        },
        _ => None,
    }
}

/// Whether every one of `elems` is a cooked string literal.
pub open spec fn all_cooked(elems: Seq<Expr>) -> bool {
    forall|i: int| 0 <= i < elems.len() ==> (#[trigger] cooked_str(elems[i])) is Some
}

/// The texts of the literals `elems`, in their order.
pub open spec fn fragment_texts(elems: Seq<Expr>) -> Seq<Seq<char>> {
    elems.map_values(|e: Expr| cooked_str(e).unwrap().0)
}

/// The places of the literals `elems`, in their order.
pub open spec fn fragment_spans(elems: Seq<Expr>) -> Seq<Span> {
    elems.map_values(|e: Expr| cooked_str(e).unwrap().1)
}

/// The first of `spans`, extended over each of the others in turn.
pub open spec fn cover_all(spans: Seq<Span>) -> Span
    recommends
        spans.len() > 0,
    decreases spans.len(),
{
    if spans.len() <= 1 {
        spans[0]
    } else {
        cover_all(spans.drop_last()).cover(spans.last())
    }
}

/// The texts of the literals `elems` joined in their order, and the span
/// that reaches over all of them.
pub open spec fn joined(elems: Seq<Expr>) -> (Seq<char>, Span)
    recommends
        elems.len() > 0,
        all_cooked(elems),
{
    (fragment_texts(elems).flatten(), cover_all(fragment_spans(elems)))
}

/// What `expr` spells, where it is a borrowed array of one or more cooked
/// string literals: the literals joined. Any other expression spells
/// nothing.
pub open spec fn string_concat(expr: Expr) -> Option<(Seq<char>, Span)> {
    match borrowed_array(expr) {
        Some(elems) => if elems.len() > 0 && all_cooked(elems) {
            Some(joined(elems))
        } else {
            None
        },
        None => None,
    }
}

/// The attribute that `stmt` records: `stmt` is an expression with a
/// trailing semicolon, the expression is a call of the `attribute` marker,
/// and the first argument of the call spells a string.
pub open spec fn stmt_attr(defs: DefPaths, stmt: Stmt) -> Option<(Seq<char>, Span)> {
    match stmt.kind {
        StmtKind::Semi(expr) => match marker_call(defs, expr, "attribute"@) {
            Some(args) => if args.len() > 0 {
                string_concat(args[0])
            } else {
                None
            },
            None => None,
        },
        _ => None,
    }
}

/// The attributes that `stmts` record, in the order of the statements. A
/// statement that records none leaves no trace.
pub open spec fn stmts_attrs(defs: DefPaths, stmts: Seq<Stmt>) -> Seq<(Seq<char>, Span)> {
    stmts.filter_map(|stmt: Stmt| stmt_attr(defs, stmt))
}

/// The attributes that the statements of `expr` record, where `expr` is a
/// block.
pub open spec fn block_attrs(defs: DefPaths, expr: Expr) -> Option<Seq<(Seq<char>, Span)>> {
    match expr.kind {
        ExprKind::Block(block) => Some(stmts_attrs(defs, block.stmts@)),
        _ => None,
    }
}

/// The argument list that a marker matcher found, as a sequence.
pub open spec fn args_view(found: Option<&[Expr]>) -> Option<Seq<Expr>> {
    match found {
        Some(args) => Some(args@),
        None => None,
    }
}

/// The string that an extractor found, by its characters.
pub open spec fn text_view(found: Option<(String, Span)>) -> Option<(Seq<char>, Span)> {
    match found {
        Some((text, span)) => Some((text@, span)),
        None => None,
    }
}

/// Each of `attrs` by its characters.
pub open spec fn attr_views(attrs: Seq<(String, Span)>) -> Seq<(Seq<char>, Span)> {
    attrs.map_values(|attr: (String, Span)| (attr.0@, attr.1))
}

/// The attributes that an extractor found, each by its characters.
pub open spec fn attrs_view(found: Option<Vec<(String, Span)>>) -> Option<
    Seq<(Seq<char>, Span)>,
> {
    match found {
        Some(attrs) => Some(attr_views(attrs@)),
        None => None,
    }
}

/// Whether `def_id` names the definition with the absolute path `path`.
///
/// The two paths must agree segment by segment, over their whole length. An
/// identifier that `cx` does not know matches no path.
pub fn match_def_path(cx: &Resolver, def_id: DefId, path: &[&str]) -> (same: bool)
    ensures
        same == def_path_is(cx@, def_id, str_segments(path@)),
{
    let names = match cx.absolute_path(def_id) {
        Some(names) => names,
        None => {
            return false;
        },
    };
    if names.len() != path.len() {
        assert(segments(names@).len() != str_segments(path@).len());
        return false;
    }
    let mut i: usize = 0;
    while i < names.len()
        invariant
            cx@.contains_key(def_id),
            cx@[def_id] == segments(names@),
            i <= names.len(),
            names.len() == path.len(),
            forall|j: int| 0 <= j < i ==> names@[j]@ == path@[j]@,
        decreases names.len() - i,
    {
        if !str_eq(names[i].as_str(), path[i]) {
            assert(segments(names@)[i as int] != str_segments(path@)[i as int]);
            return false;
        }
        i += 1;
    }
    assert(segments(names@) =~= str_segments(path@));
    true
}

/// Reads `expr` as a call of the marker function of the kind `marker_type`,
/// and returns the arguments of the call, borrowed from `expr`.
///
/// Returns `None` unless `expr` is a call, its callee is a plain path, and
/// the path resolves to `maud::marker::` followed by `marker_type`.
pub fn match_marker_type<'a>(
    cx: &Resolver,
    expr: &'a Expr,
    marker_type: &'static str,
) -> (found: Option<&'a [Expr]>)
    ensures
        args_view(found) == marker_call(cx@, *expr, marker_type@),
{
    match &expr.kind {
        ExprKind::Call(path_expr, args) => match &path_expr.kind {
            ExprKind::Path(Some(def_id)) => {
                let path: [&str; 3] = ["maud", "marker", marker_type];
                assert(str_segments(path@) =~= marker_path(marker_type@));
                if match_def_path(cx, *def_id, &path) {
                    Some(args.as_slice())
                } else {
                    None
                }
            },
            _ => None,
        },
        _ => None,
    }
}

/// Reads `expr` as a borrowed array of cooked string literals, and joins
/// them into one string with one span.
///
/// Returns `None` where `expr` has another shape, where one of the elements
/// is not a cooked string literal, and where the array is empty: without a
/// literal there is no place to report.
pub fn extract_strings(expr: &Expr) -> (found: Option<(String, Span)>)
    ensures
        text_view(found) == string_concat(*expr),
{
    let args: &Vec<Expr> = match &expr.kind {
        ExprKind::AddrOf(Mutability::Immutable, inner) => match &inner.kind {
            ExprKind::Array(args) => args,
            _ => {
                return None;
            },
        },
        _ => {
            return None;
        },
    };
    let mut content = String::new();
    let mut span: Option<Span> = None;
    let mut i: usize = 0;
    while i < args.len()
        invariant
            borrowed_array(*expr) == Some(args@),
            i <= args.len(),
            all_cooked(args@.take(i as int)),
            i == 0 ==> content@ == Seq::<char>::empty() && span is None,
            i > 0 ==> span is Some && (content@, span.unwrap()) == joined(args@.take(i as int)),
        decreases args.len() - i,
    {
        let ghost seen = args@.take(i as int);
        match &args[i].kind {
            ExprKind::Lit(lit) => match &lit.kind {
                LitKind::Str(s, StrStyle::Cooked) => {
                    content.append(s.as_str());
                    span = match span {
                        Some(so_far) => Some(so_far.to(lit.span)),
                        None => Some(lit.span),
                    };
                    proof {
                        let next = args@.take(i + 1);
                        assert(next =~= seen.push(args@[i as int]));
                        if i == 0 {
                            assert(next =~= seq![args@[0]]);
                            lemma_joined_single(args@[0]);
                        } else {
                            lemma_joined_push(seen, args@[i as int]);
                        }
                    }
                },
                _ => {
                    assert(cooked_str(args@[i as int]) is None);
                    return None;
                },
            },
            _ => {
                assert(cooked_str(args@[i as int]) is None);
                return None;
            },
        }
        i += 1;
    }
    assert(args@.take(i as int) =~= args@);
    match span {
        Some(span) => Some((content, span)),
        None => None,
    }
}

/// Reads `expr` as a block, and collects the attributes that its statements
/// record, in the order of the statements.
///
/// Returns `None` where `expr` is not a block. Within a block, a statement
/// that records no attribute is passed over: it is ordinary code.
pub fn extract_attrs(cx: &Resolver, expr: &Expr) -> (found: Option<Vec<(String, Span)>>)
    ensures
        attrs_view(found) == block_attrs(cx@, *expr),
{
    let block = match &expr.kind {
        ExprKind::Block(block) => block,
        _ => {
            return None;
        },
    };
    let mut attrs: Vec<(String, Span)> = Vec::new();
    let mut i: usize = 0;
    while i < block.stmts.len()
        invariant
            i <= block.stmts.len(),
            attr_views(attrs@) == stmts_attrs(cx@, block.stmts@.take(i as int)),
        decreases block.stmts.len() - i,
    {
        let attr = match &block.stmts[i].kind {
            StmtKind::Semi(expr) => match match_marker_type(cx, expr, "attribute") {
                Some(args) => if args.len() > 0 {
                    extract_strings(&args[0])
                } else {
                    None
                },
                None => None,
            },
            _ => None,
        };
        proof {
            let stmt = block.stmts@[i as int];
            lemma_stmts_attrs_concat(cx@, block.stmts@.take(i as int), seq![stmt]);
            lemma_stmts_attrs_single(cx@, stmt);
            assert(block.stmts@.take(i + 1) =~= block.stmts@.take(i as int) + seq![stmt]);
        }
        if let Some(attr) = attr {
            attrs.push(attr);
        }
        i += 1;
    }
    assert(block.stmts@.take(i as int) =~= block.stmts@);
    Some(attrs)
}

/// A definition matches a path exactly when the table knows it, its absolute
/// path has as many segments as the path asked for, and the two agree at
/// every position.
pub proof fn lemma_def_path_exact(defs: DefPaths, def_id: DefId, path: Seq<Seq<char>>)
    ensures
        def_path_is(defs, def_id, path) <==> {
            &&& defs.contains_key(def_id)
            &&& defs[def_id].len() == path.len()
            &&& forall|i: int| 0 <= i < path.len() ==> defs[def_id][i] == path[i]
        },
{
    if defs.contains_key(def_id) && defs[def_id].len() == path.len() && (forall|i: int|
        0 <= i < path.len() ==> defs[def_id][i] == path[i]) {
        assert(defs[def_id] =~= path);
    }
}

/// Only a call whose callee is a plain path is a marker call, whatever the
/// kind of marker asked for.
pub proof fn lemma_marker_call_needs_path_callee(
    defs: DefPaths,
    expr: Expr,
    marker_type: Seq<char>,
)
    requires
        !(expr.kind matches ExprKind::Call(callee, _) && callee.kind is Path),
    ensures
        marker_call(defs, expr, marker_type) is None,
{
}

/// A call of the marker function of the kind `kind` is a marker call of that
/// kind, with all its arguments in their order, and of no other kind.
pub proof fn lemma_marker_call_of_kind(
    defs: DefPaths,
    expr: Expr,
    def_id: DefId,
    kind: Seq<char>,
    marker_type: Seq<char>,
)
    requires
        expr.kind matches ExprKind::Call(callee, _) && callee.kind == ExprKind::Path(Some(def_id)),
        def_path_is(defs, def_id, marker_path(kind)),
    ensures
        marker_type == kind ==> marker_call(defs, expr, marker_type) == Some(expr.kind->Call_1@),
        marker_type != kind ==> marker_call(defs, expr, marker_type) is None,
{
}

/// One element that is not a cooked string literal, at whatever position,
/// leaves the whole array without a reading.
pub proof fn lemma_other_element_spoils(expr: Expr, i: int)
    requires
        borrowed_array(expr) matches Some(elems) && 0 <= i < elems.len() && cooked_str(
            elems[i],
        ) is None,
    ensures
        string_concat(expr) is None,
{
}

/// An empty array spells nothing.
pub proof fn lemma_empty_array_spells_nothing(expr: Expr)
    requires
        borrowed_array(expr) matches Some(elems) && elems.len() == 0,
    ensures
        string_concat(expr) is None,
{
}

/// Joining one more text behind a sequence of texts appends it.
proof fn lemma_flatten_push(parts: Seq<Seq<char>>, last: Seq<char>)
    ensures
        parts.push(last).flatten() == parts.flatten() + last,
{
    lemma_flatten_concat(parts, seq![last]);
    seq![last].lemma_flatten_one_element();
    assert(parts.push(last) =~= parts + seq![last]);
}

/// One cooked string literal, joined, is that literal.
pub proof fn lemma_joined_single(elem: Expr)
    requires
        cooked_str(elem) is Some,
    ensures
        joined(seq![elem]) == cooked_str(elem).unwrap(),
{
    fragment_texts(seq![elem]).lemma_flatten_one_element();
}

/// One more cooked string literal behind the others appends its text to
/// theirs, and extends their span over its own.
pub proof fn lemma_joined_push(elems: Seq<Expr>, elem: Expr)
    requires
        elems.len() > 0,
        cooked_str(elem) is Some,
    ensures
        joined(elems.push(elem)) == (
            joined(elems).0 + cooked_str(elem).unwrap().0,
            joined(elems).1.cover(cooked_str(elem).unwrap().1),
        ),
{
    let last = cooked_str(elem).unwrap();
    let longer = elems.push(elem);
    assert(fragment_texts(longer) =~= fragment_texts(elems).push(last.0));
    lemma_flatten_push(fragment_texts(elems), last.0);
    assert(fragment_spans(longer).drop_last() =~= fragment_spans(elems));
}

/// The span over a run of spans encloses each of them, and starts and ends
/// where one of them does: it is the least span that encloses them all.
pub proof fn lemma_cover_all_is_least(spans: Seq<Span>)
    requires
        spans.len() > 0,
    ensures
        forall|i: int| 0 <= i < spans.len() ==> cover_all(spans).encloses(#[trigger] spans[i]),
        exists|i: int| 0 <= i < spans.len() && cover_all(spans).lo == (#[trigger] spans[i]).lo,
        exists|i: int| 0 <= i < spans.len() && cover_all(spans).hi == (#[trigger] spans[i]).hi,
    decreases spans.len(),
{
    if spans.len() == 1 {
        assert(cover_all(spans).lo == spans[0].lo);
        assert(cover_all(spans).hi == spans[0].hi);
    } else {
        let front = spans.drop_last();
        lemma_cover_all_is_least(front);
        assert forall|i: int| 0 <= i < spans.len() implies cover_all(spans).encloses(
            #[trigger] spans[i],
        ) by {
            if i < front.len() {
                assert(cover_all(front).encloses(front[i]));
            }
        }
    }
}

/// An expression that is not a block records no attributes at all, even
/// where it is itself a call of the `attribute` marker.
pub proof fn lemma_block_attrs_needs_block(defs: DefPaths, expr: Expr)
    requires
        !(expr.kind is Block),
    ensures
        block_attrs(defs, expr) is None,
{
}

/// A block always has a reading, be it an empty one, and never records more
/// attributes than it has statements.
pub proof fn lemma_block_attrs_of_block(defs: DefPaths, expr: Expr)
    requires
        expr.kind is Block,
    ensures
        block_attrs(defs, expr) is Some,
        block_attrs(defs, expr)->0.len() <= expr.kind->Block_0.stmts@.len(),
{
    lemma_stmts_attrs_len(defs, expr.kind->Block_0.stmts@);
}

/// Statements record at most one attribute each.
pub proof fn lemma_stmts_attrs_len(defs: DefPaths, stmts: Seq<Stmt>)
    ensures
        stmts_attrs(defs, stmts).len() <= stmts.len(),
    decreases stmts.len(),
{
    if stmts.len() > 0 {
        lemma_stmts_attrs_len(defs, stmts.drop_last());
    }
}

/// A lone statement records its attribute, or nothing.
pub proof fn lemma_stmts_attrs_single(defs: DefPaths, stmt: Stmt)
    ensures
        stmts_attrs(defs, seq![stmt]) == match stmt_attr(defs, stmt) {
            Some(attr) => seq![attr],
            None => Seq::empty(),
        },
{
    Seq::lemma_filter_map_singleton(stmt, |stmt: Stmt| stmt_attr(defs, stmt));
}

/// Attributes come in the order of their statements: those of the statements
/// `front` followed by `back` are those of `front`, followed by those of
/// `back`.
pub proof fn lemma_stmts_attrs_concat(defs: DefPaths, front: Seq<Stmt>, back: Seq<Stmt>)
    ensures
        stmts_attrs(defs, front + back) == stmts_attrs(defs, front) + stmts_attrs(defs, back),
    decreases back.len(),
{
    if back.len() > 0 {
        lemma_stmts_attrs_concat(defs, front, back.drop_last());
        assert((front + back).drop_last() =~= front + back.drop_last());
    }
}

/// Leaving out a statement that records no attribute changes nothing.
pub proof fn lemma_stmts_attrs_skip(
    defs: DefPaths,
    front: Seq<Stmt>,
    stmt: Stmt,
    back: Seq<Stmt>,
)
    requires
        stmt_attr(defs, stmt) is None,
    ensures
        stmts_attrs(defs, front + seq![stmt] + back) == stmts_attrs(defs, front + back),
{
    lemma_stmts_attrs_concat(defs, front + seq![stmt], back);
    lemma_stmts_attrs_concat(defs, front, seq![stmt]);
    lemma_stmts_attrs_single(defs, stmt);
    lemma_stmts_attrs_concat(defs, front, back);
}

/// Two answers of `match_marker_type` to the same question are the same
/// answer.
pub proof fn lemma_match_marker_type_repeatable(
    defs: DefPaths,
    expr: Expr,
    marker_type: Seq<char>,
    first: Option<&[Expr]>,
    second: Option<&[Expr]>,
)
    requires
        args_view(first) == marker_call(defs, expr, marker_type),
        args_view(second) == marker_call(defs, expr, marker_type),
    ensures
        args_view(first) == args_view(second),
{
}

/// Two answers of `extract_strings` to the same question are the same
/// answer.
pub proof fn lemma_extract_strings_repeatable(
    expr: Expr,
    first: Option<(String, Span)>,
    second: Option<(String, Span)>,
)
    requires
        text_view(first) == string_concat(expr),
        text_view(second) == string_concat(expr),
    ensures
        text_view(first) == text_view(second),
{
}

/// Two answers of `extract_attrs` to the same question are the same answer.
pub proof fn lemma_extract_attrs_repeatable(
    defs: DefPaths,
    expr: Expr,
    first: Option<Vec<(String, Span)>>,
    second: Option<Vec<(String, Span)>>,
)
    requires
        attrs_view(first) == block_attrs(defs, expr),
        attrs_view(second) == block_attrs(defs, expr),
    ensures
        attrs_view(first) == attrs_view(second),
{
}

} // verus!
