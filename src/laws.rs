//! Properties of the whole pipeline.
use vstd::prelude::*;

use crate::ast::{CallExpr, JsExpr, some_arg_call, Module, ModuleItem, Stmt, is_method_call, is_root_ident, some_call};
use crate::dom_node::NodeView;
use crate::generator::class_union;
use crate::transform::{
    apply_method, descend, item_chains, items_chains, module_chains, recognized, selector_of, unknown_selector,
    visit, visit_args,
};
use crate::{no_usage_placeholder, parse_error_marker, transpiled};

verus! {

/// Whether `e` is a call that records something on its own: a root call
/// `$(..)`, or a `css`, `text` or `on` method call.
pub open spec fn is_recording_call(e: JsExpr) -> bool {
    ||| e matches JsExpr::Call(c) && is_root_ident(*c.callee)
    ||| is_method_call(e, "css"@)
    ||| is_method_call(e, "text"@)
    ||| is_method_call(e, "on"@)
}

/// [`is_recording_call`] as a predicate.
pub open spec fn recording() -> spec_fn(JsExpr) -> bool {
    |x: JsExpr| is_recording_call(x)
}

/// Whether `item` is an expression statement that holds a recording call.
pub open spec fn item_has_recording_call(item: ModuleItem) -> bool {
    match item {
        ModuleItem::Stmt(Stmt::Expr(es)) => some_call(es.expr, recording()),
        _ => false,
    }
}

/// Whether some top-level item of `m` holds a recording call.
pub open spec fn module_has_recording_call(m: Module) -> bool {
    exists|i: int| 0 <= i < m.body@.len() && #[trigger] item_has_recording_call(m.body@[i])
}

/// A failed parse is reported by output that starts with the parse-error
/// marker.
pub proof fn lemma_parse_failure_is_marked(detail: String)
    ensures
        transpiled(Err(detail)).len() >= parse_error_marker().len(),
        transpiled(Err(detail)).subrange(0, parse_error_marker().len() as int)
            == parse_error_marker(),
{
    let out = transpiled(Err(detail));
    assert(out.subrange(0, parse_error_marker().len() as int) =~= parse_error_marker());
}

/// Descent through an expression without recording calls leaves the
/// selector, styles, text and events as they were.
proof fn lemma_descend_unrecorded(e: JsExpr, n: NodeView)
    requires
        !some_call(e, recording()),
    ensures
        descend(e, n).selector == n.selector,
        descend(e, n).styles == n.styles,
        descend(e, n).text_content == n.text_content,
        descend(e, n).events == n.events,
    decreases e,
{
    if let JsExpr::Call(c) = e {
        assert(!recording()(e));
        if let JsExpr::Member(mem) = *c.callee {
            if let Some(p) = mem.prop {
                assert(!some_call(*c.callee, recording()));
                lemma_descend_unrecorded(*mem.obj, apply_method(p@, c.args@, n));
            }
        }
    }
}

proof fn lemma_visit_unrecorded(e: JsExpr)
    requires
        !some_call(e, recording()),
    ensures
        visit(e) == Seq::<NodeView>::empty(),
    decreases e, 1nat,
{
    if let JsExpr::Call(c) = e {
        assert(!recording()(e));
        lemma_descend_unrecorded(e, NodeView::fresh(unknown_selector()));
        assert(!recognized(descend(e, NodeView::fresh(unknown_selector()))));
        lemma_visit_args_unrecorded(c, c.args.len() as nat);
    }
}

proof fn lemma_visit_args_unrecorded(c: CallExpr, k: nat)
    requires
        !some_arg_call(c, k, recording()),
    ensures
        visit_args(c, k) == Seq::<NodeView>::empty(),
    decreases c, 0nat, k,
{
    if k > 0 && k <= c.args.len() {
        lemma_visit_args_unrecorded(c, (k - 1) as nat);
        lemma_visit_unrecorded(c.args[k - 1].expr);
        assert(visit_args(c, k) =~= Seq::<NodeView>::empty());
    }
}

proof fn lemma_items_unrecorded(items: Seq<ModuleItem>, k: nat)
    requires
        forall|i: int| 0 <= i < items.len() ==> !#[trigger] item_has_recording_call(items[i]),
    ensures
        items_chains(items, k) == Seq::<NodeView>::empty(),
    decreases k,
{
    if k > 0 && k <= items.len() {
        lemma_items_unrecorded(items, (k - 1) as nat);
        assert(!item_has_recording_call(items[k - 1]));
        if let ModuleItem::Stmt(Stmt::Expr(es)) = items[k - 1] {
            lemma_visit_unrecorded(es.expr);
        }
        assert(items_chains(items, k) =~= Seq::<NodeView>::empty());
    }
}

/// A module in which no statement holds a root call `$(..)`, nor a `css`,
/// `text` or `on` method call, is turned into the placeholder exactly.
pub proof fn lemma_no_chain_gives_placeholder(m: Module)
    requires
        !module_has_recording_call(m),
    ensures
        transpiled(Ok(m)) == no_usage_placeholder(),
{
    lemma_items_unrecorded(m.body@, m.body@.len());
}

/// The class union keeps the implied classes first, holds every added class,
/// and repeats none when the implied classes repeat none.
pub proof fn lemma_class_union_no_repeats(base: Seq<Seq<char>>, adds: Seq<Seq<char>>)
    requires
        base.no_duplicates(),
    ensures
        class_union(base, adds).no_duplicates(),
        base.is_prefix_of(class_union(base, adds)),
        forall|i: int| 0 <= i < adds.len() ==> class_union(base, adds).contains(#[trigger] adds[i]),
        forall|i: int|
            0 <= i < class_union(base, adds).len() ==> base.contains(#[trigger] class_union(base, adds)[i])
                || adds.contains(class_union(base, adds)[i]),
    decreases adds.len(),
{
    if adds.len() > 0 {
        let prev = adds.drop_last();
        lemma_class_union_no_repeats(base, prev);
        let u = class_union(base, prev);
        let x = adds.last();
        assert forall|i: int| 0 <= i < adds.len() implies class_union(base, adds).contains(
            #[trigger] adds[i],
        ) by {
            if i < adds.len() - 1 {
                assert(adds[i] == prev[i]);
                assert(u.contains(prev[i]));
                let k = choose|k: int| 0 <= k < u.len() && u[k] == prev[i];
                if !u.contains(x) {
                    assert(u.push(x)[k] == prev[i]);
                }
            } else {
                if !u.contains(x) {
                    assert(u.push(x)[u.len() as int] == x);
                }
            }
        }
        assert forall|i: int| 0 <= i < class_union(base, adds).len() implies base.contains(
            #[trigger] class_union(base, adds)[i],
        ) || adds.contains(class_union(base, adds)[i]) by {
            let y = class_union(base, adds)[i];
            if i < u.len() {
                assert(y == u[i]);
                if prev.contains(y) {
                    let k = choose|k: int| 0 <= k < prev.len() && prev[k] == y;
                    assert(adds[k] == y);
                }
            } else {
                assert(y == x);
                assert(adds[adds.len() - 1] == x);
            }
        }
        if !u.contains(x) {
            assert(u.push(x).no_duplicates()) by {
                assert forall|a: int, b: int|
                    0 <= a < u.push(x).len() && 0 <= b < u.push(x).len() && a != b
                    implies u.push(x)[a] != u.push(x)[b] by {
                    if a < u.len() && b < u.len() {
                    } else if a < u.len() {
                        assert(u[a] != x);
                    } else if b < u.len() {
                        assert(u[b] != x);
                    }
                }
            }
            assert(base.is_prefix_of(u.push(x))) by {
                assert forall|i: int| 0 <= i < base.len() implies u.push(x)[i] == base[i] by {
                    assert(u[i] == base[i]);
                }
            }
        }
    }
}

/// Every entry of `chains` has a non-empty selector.
pub open spec fn selectors_nonempty(chains: Seq<NodeView>) -> bool {
    forall|i: int| 0 <= i < chains.len() ==> (#[trigger] chains[i]).selector.len() > 0
}

proof fn lemma_descend_keeps_selector_nonempty(e: JsExpr, n: NodeView)
    requires
        n.selector.len() > 0,
    ensures
        descend(e, n).selector.len() > 0,
    decreases e,
{
    if let JsExpr::Call(c) = e {
        if let JsExpr::Member(mem) = *c.callee {
            if let Some(p) = mem.prop {
                lemma_descend_keeps_selector_nonempty(*mem.obj, apply_method(p@, c.args@, n));
            }
        }
    }
}

proof fn lemma_concat_selectors_nonempty(a: Seq<NodeView>, b: Seq<NodeView>)
    requires
        selectors_nonempty(a),
        selectors_nonempty(b),
    ensures
        selectors_nonempty(a + b),
{
    assert forall|i: int| 0 <= i < (a + b).len() implies (#[trigger] (a + b)[i]).selector.len() > 0 by {
        if i < a.len() {
            assert((a + b)[i] == a[i]);
        } else {
            assert((a + b)[i] == b[i - a.len()]);
        }
    }
}

proof fn lemma_visit_selectors_nonempty(e: JsExpr)
    ensures
        selectors_nonempty(visit(e)),
    decreases e, 1nat,
{
    reveal_strlit("unknown_selector");
    if let JsExpr::Call(c) = e {
        let start = NodeView::fresh(selector_of(c.args@));
        lemma_descend_keeps_selector_nonempty(e, start);
        lemma_descend_keeps_selector_nonempty(e, NodeView::fresh(unknown_selector()));
        lemma_visit_args_selectors_nonempty(c, c.args.len() as nat);
    }
}

proof fn lemma_visit_args_selectors_nonempty(c: CallExpr, k: nat)
    ensures
        selectors_nonempty(visit_args(c, k)),
    decreases c, 0nat, k,
{
    if k > 0 && k <= c.args.len() {
        lemma_visit_args_selectors_nonempty(c, (k - 1) as nat);
        lemma_visit_selectors_nonempty(c.args[k - 1].expr);
        lemma_concat_selectors_nonempty(visit_args(c, (k - 1) as nat), visit(c.args[k - 1].expr));
    }
}

proof fn lemma_items_selectors_nonempty(items: Seq<ModuleItem>, k: nat)
    ensures
        selectors_nonempty(items_chains(items, k)),
    decreases k,
{
    if k > 0 && k <= items.len() {
        lemma_items_selectors_nonempty(items, (k - 1) as nat);
        if let ModuleItem::Stmt(Stmt::Expr(es)) = items[k - 1] {
            lemma_visit_selectors_nonempty(es.expr);
        }
        lemma_concat_selectors_nonempty(items_chains(items, (k - 1) as nat), item_chains(items[k - 1]));
    }
}

/// No chain collected from a module has an empty selector: a missing or
/// empty selector literal is replaced by the sentinel.
pub proof fn lemma_chain_selectors_nonempty(m: Module)
    ensures
        selectors_nonempty(module_chains(m)),
{
    lemma_items_selectors_nonempty(m.body@, m.body@.len());
}

} // verus!
