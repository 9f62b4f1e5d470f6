//! Chain descent and chain collection over the expression model.
use vstd::prelude::*;
use vstd::string::*;

use crate::ast::{CallExpr, ExprOrSpread, ExprStmt, JsExpr, Module, ModuleItem, Stmt, str_lit};
use crate::dom_node::{JqDomNode, NodeView, pairs_view, strings_view};

verus! {

/// The selector recorded when the root call has no usable selector.
pub open spec fn unknown_selector() -> Seq<char> {
    "unknown_selector"@
}

/// The selector named by a root call's arguments: the first argument when it
/// is a non-empty string literal.
pub open spec fn selector_arg(args: Seq<ExprOrSpread>) -> Option<Seq<char>> {
    if args.len() > 0 {
        match str_lit(args[0].expr) {
            Some(s) => if s.len() > 0 { Some(s) } else { None },
            None => None,
        }
    } else {
        None
    }
}

/// The selector of a root call, the sentinel standing in for a missing one.
pub open spec fn selector_of(args: Seq<ExprOrSpread>) -> Seq<char> {
    match selector_arg(args) {
        Some(s) => s,
        None => unknown_selector(),
    }
}

/// The effect of one method call `.m(args)` of a chain on `n`.
pub open spec fn apply_method(m: Seq<char>, args: Seq<ExprOrSpread>, n: NodeView) -> NodeView {
    let a0 = if args.len() > 0 { str_lit(args[0].expr) } else { None };
    let a1 = if args.len() > 1 { str_lit(args[1].expr) } else { None };
    if m == "css"@ {
        if args.len() == 2 && a0 is Some && a1 is Some {
            NodeView { styles: n.styles.push((a0->0, a1->0)), ..n }
        } else {
            n
        }
    } else if m == "text"@ {
        if args.len() == 1 && a0 is Some {
            NodeView { text_content: a0, ..n }
        } else {
            n
        }
    } else if m == "append"@ {
        if args.len() == 1 && a0 is Some {
            NodeView { children_raw_html: n.children_raw_html.push(a0->0), ..n }
        } else {
            n
        }
    } else if m == "addClass"@ {
        if args.len() == 1 && a0 is Some {
            NodeView { class_list: n.class_list.push(a0->0), ..n }
        } else {
            n
        }
    } else if m == "attr"@ {
        if args.len() == 2 && a0 is Some && a1 is Some {
            NodeView { attributes: n.attributes.push((a0->0, a1->0)), ..n }
        } else {
            n
        }
    } else if m == "on"@ {
        if args.len() >= 2 && a0 is Some {
            NodeView { events: n.events.push((a0->0, args[1].text@)), ..n }
        } else {
            n
        }
    } else {
        n
    }
}

/// Chain descent: walks from the outermost call of a chain toward its root
/// call, applying each method call before descending into its receiver.
pub open spec fn descend(e: JsExpr, n: NodeView) -> NodeView
    decreases e,
{
    match e {
        JsExpr::Call(c) => match *c.callee {
            JsExpr::Ident(id) => {
                if id@ == seq!['$'] {
                    match selector_arg(c.args@) {
                        Some(s) => NodeView { selector: s, ..n },
                        None => n,
                    }
                } else {
                    n
                }
            },
            JsExpr::Member(mem) => match mem.prop {
                Some(p) => descend(*mem.obj, apply_method(p@, c.args@, n)),
                None => n,
            },
            _ => n,
        },
        _ => n,
    }
}

proof fn lemma_method_names_distinct()
    ensures
        "css"@ != "text"@,
        "css"@ != "append"@ && "text"@ != "append"@,
        "css"@ != "addClass"@ && "text"@ != "addClass"@ && "append"@ != "addClass"@,
        "css"@ != "attr"@ && "text"@ != "attr"@ && "append"@ != "attr"@ && "addClass"@ != "attr"@,
        "css"@ != "on"@ && "text"@ != "on"@ && "append"@ != "on"@ && "addClass"@ != "on"@
            && "attr"@ != "on"@,
{
    reveal_strlit("css");
    reveal_strlit("text");
    reveal_strlit("append");
    reveal_strlit("addClass");
    reveal_strlit("attr");
    reveal_strlit("on");
    assert("css"@.len() == 3 && "text"@.len() == 4 && "append"@.len() == 6);
    assert("addClass"@.len() == 8 && "attr"@.len() == 4 && "on"@.len() == 2);
    assert("text"@[1] != "attr"@[1]);
}

/// Whether speculative descent found a chain: the selector was resolved, or
/// a style, a text or an event was recorded.
pub open spec fn recognized(n: NodeView) -> bool {
    n.selector != unknown_selector() || n.styles.len() > 0 || n.text_content is Some
        || n.events.len() > 0
}

/// The chains found in one expression, in source order.
pub open spec fn visit(e: JsExpr) -> Seq<NodeView>
    decreases e, 1nat,
{
    match e {
        JsExpr::Call(c) => match *c.callee {
            JsExpr::Ident(id) => {
                if id@ == seq!['$'] {
                    seq![descend(e, NodeView::fresh(selector_of(c.args@)))]
                } else {
                    visit_args(c, c.args.len() as nat)
                }
            },
            JsExpr::Member(_) => {
                let n = descend(e, NodeView::fresh(unknown_selector()));
                if recognized(n) {
                    seq![n]
                } else {
                    visit_args(c, c.args.len() as nat)
                }
            },
            _ => visit_args(c, c.args.len() as nat),
        },
        _ => Seq::empty(),
    }
}

/// The chains found in the first `k` arguments of `c`, in order.
pub open spec fn visit_args(c: CallExpr, k: nat) -> Seq<NodeView>
    decreases c, 0nat, k,
{
    if k == 0 || k > c.args.len() {
        Seq::empty()
    } else {
        visit_args(c, (k - 1) as nat) + visit(c.args[k - 1].expr)
    }
}

proof fn lemma_root_name()
    ensures
        "$"@ == seq!['$'],
{
    reveal_strlit("$");
    assert("$"@ =~= seq!['$']);
}

/// Whether `s` equals the string `lit`.
fn is_name(s: &String, lit: &str) -> (r: bool)
    ensures
        r == (s@ == lit@),
{
    let t = lit.to_owned();
    *s == t
}

/// The `i`-th argument's value, when it is a string literal.
fn lit_arg(args: &Vec<ExprOrSpread>, i: usize) -> (r: Option<&String>)
    ensures
        match r {
            Some(s) => i < args@.len() && str_lit(args@[i as int].expr) == Some(s@),
            None => !(i < args@.len() && str_lit(args@[i as int].expr) is Some),
        },
{
    if i < args.len() {
        match &args[i].expr {
            JsExpr::Str(s) => Some(s),
            _ => None,
        }
    } else {
        None
    }
}

fn get_selector_from_args(args: &Vec<ExprOrSpread>) -> (r: Option<String>)
    ensures
        match r {
            Some(s) => selector_arg(args@) == Some(s@),
            None => selector_arg(args@) is None,
        },
{
    match lit_arg(args, 0) {
        Some(s) => {
            if s.unicode_len() > 0 {
                Some(s.clone())
            } else {
                None
            }
        },
        None => None,
    }
}

fn unknown_selector_string() -> (r: String)
    ensures
        r@ == unknown_selector(),
{
    "unknown_selector".to_owned()
}

/// The selector of a root call's arguments, the sentinel standing in for a
/// missing one.
fn get_selector_or_unknown(args: &Vec<ExprOrSpread>) -> (r: String)
    ensures
        r@ == selector_of(args@),
{
    match get_selector_from_args(args) {
        Some(s) => s,
        None => unknown_selector_string(),
    }
}

fn push_pair(v: &mut Vec<(String, String)>, k: &String, val: &String)
    ensures
        pairs_view(final(v)@) == pairs_view(old(v)@).push((k@, val@)),
{
    let p = (k.clone(), val.clone());
    v.push(p);
    assert(pairs_view(v@) =~= pairs_view(old(v)@).push((k@, val@)));
}

fn push_string(v: &mut Vec<String>, s: &String)
    ensures
        strings_view(final(v)@) == strings_view(old(v)@).push(s@),
{
    v.push(s.clone());
    assert(strings_view(v@) =~= strings_view(old(v)@).push(s@));
}

fn handle_css(call_expr: &CallExpr, node: &mut JqDomNode)
    ensures
        final(node)@ == apply_method("css"@, call_expr.args@, old(node)@),
{
    if call_expr.args.len() == 2 {
        if let (Some(k), Some(v)) = (lit_arg(&call_expr.args, 0), lit_arg(&call_expr.args, 1)) {
            push_pair(&mut node.styles, k, v);
        }
    }
}

fn handle_text(call_expr: &CallExpr, node: &mut JqDomNode)
    ensures
        final(node)@ == apply_method("text"@, call_expr.args@, old(node)@),
{
    proof {
        lemma_method_names_distinct();
    }
    if call_expr.args.len() == 1 {
        if let Some(s) = lit_arg(&call_expr.args, 0) {
            node.text_content = Some(s.clone());
        }
    }
}

fn handle_append(call_expr: &CallExpr, node: &mut JqDomNode)
    ensures
        final(node)@ == apply_method("append"@, call_expr.args@, old(node)@),
{
    proof {
        lemma_method_names_distinct();
    }
    if call_expr.args.len() == 1 {
        if let Some(s) = lit_arg(&call_expr.args, 0) {
            push_string(&mut node.children_raw_html, s);
        }
    }
}

fn handle_add_class(call_expr: &CallExpr, node: &mut JqDomNode)
    ensures
        final(node)@ == apply_method("addClass"@, call_expr.args@, old(node)@),
{
    proof {
        lemma_method_names_distinct();
    }
    if call_expr.args.len() == 1 {
        if let Some(s) = lit_arg(&call_expr.args, 0) {
            push_string(&mut node.class_list, s);
        }
    }
}

fn handle_attr(call_expr: &CallExpr, node: &mut JqDomNode)
    ensures
        final(node)@ == apply_method("attr"@, call_expr.args@, old(node)@),
{
    proof {
        lemma_method_names_distinct();
    }
    if call_expr.args.len() == 2 {
        if let (Some(k), Some(v)) = (lit_arg(&call_expr.args, 0), lit_arg(&call_expr.args, 1)) {
            push_pair(&mut node.attributes, k, v);
        }
    }
}

fn handle_on(call_expr: &CallExpr, node: &mut JqDomNode)
    ensures
        final(node)@ == apply_method("on"@, call_expr.args@, old(node)@),
{
    proof {
        lemma_method_names_distinct();
    }
    if call_expr.args.len() >= 2 {
        if let Some(evt) = lit_arg(&call_expr.args, 0) {
            push_pair(&mut node.events, evt, &call_expr.args[1].text);
        }
    }
}

/// Applies the chain rooted at `expr` to `node`, outermost call first.
pub fn parse_chain_expr(expr: &JsExpr, node: &mut JqDomNode)
    ensures
        final(node)@ == descend(*expr, old(node)@),
    decreases expr,
{
    proof {
        lemma_method_names_distinct();
        lemma_root_name();
    }
    if let JsExpr::Call(call_expr) = expr {
        match &*call_expr.callee {
            JsExpr::Ident(id) => {
                if is_name(id, "$") {
                    if let Some(sel) = get_selector_from_args(&call_expr.args) {
                        node.selector = sel;
                    }
                }
            },
            JsExpr::Member(member) => {
                if let Some(method) = &member.prop {
                    if is_name(method, "css") {
                        handle_css(call_expr, node);
                    } else if is_name(method, "text") {
                        handle_text(call_expr, node);
                    } else if is_name(method, "append") {
                        handle_append(call_expr, node);
                    } else if is_name(method, "addClass") {
                        handle_add_class(call_expr, node);
                    } else if is_name(method, "attr") {
                        handle_attr(call_expr, node);
                    } else if is_name(method, "on") {
                        handle_on(call_expr, node);
                    }
                    parse_chain_expr(&member.obj, node);
                }
            },
            _ => {},
        }
    }
}

} // verus!

verus! {

/// The values of a sequence of nodes.
pub open spec fn nodes_view(v: Seq<JqDomNode>) -> Seq<NodeView> {
    v.map_values(|n: JqDomNode| n@)
}

/// The chains found in one top-level item: those of an expression statement.
pub open spec fn item_chains(item: ModuleItem) -> Seq<NodeView> {
    match item {
        ModuleItem::Stmt(Stmt::Expr(es)) => visit(es.expr),
        _ => Seq::empty(),
    }
}

/// The chains found in the first `k` items, in source order.
pub open spec fn items_chains(items: Seq<ModuleItem>, k: nat) -> Seq<NodeView>
    decreases k,
{
    if k == 0 || k > items.len() {
        Seq::empty()
    } else {
        items_chains(items, (k - 1) as nat) + item_chains(items[k - 1])
    }
}

/// The chains found in a module, in source order.
pub open spec fn module_chains(m: Module) -> Seq<NodeView> {
    items_chains(m.body@, m.body@.len())
}

/// Collects the chains of a module into `nodes`.
pub struct JqueryCollector {
    pub nodes: Vec<JqDomNode>,
}

impl View for JqueryCollector {
    type V = Seq<NodeView>;

    open spec fn view(&self) -> Seq<NodeView> {
        nodes_view(self.nodes@)
    }
}

impl JqueryCollector {
    fn push_node(&mut self, node: JqDomNode)
        ensures
            final(self)@ == old(self)@.push(node@),
    {
        self.nodes.push(node);
        assert(self@ =~= old(self)@.push(node@));
    }

    /// Appends the chains of `module`, in source order.
    pub fn collect_from_module(&mut self, module: &Module)
        ensures
            final(self)@ == old(self)@ + module_chains(*module),
    {
        let mut i: usize = 0;
        while i < module.body.len()
            invariant
                i <= module.body@.len(),
                self@ == old(self)@ + items_chains(module.body@, i as nat),
            decreases module.body@.len() - i,
        {
            match &module.body[i] {
                ModuleItem::Stmt(stmt) => {
                    self.visit_stmt(stmt);
                },
                ModuleItem::ModuleDecl => {},
            }
            i = i + 1;
            assert(self@ =~= old(self)@ + items_chains(module.body@, i as nat));
        }
    }

    fn visit_stmt(&mut self, stmt: &Stmt)
        ensures
            final(self)@ == old(self)@ + item_chains(ModuleItem::Stmt(*stmt)),
    {
        match stmt {
            Stmt::Expr(expr_stmt) => {
                self.visit_expr_stmt(expr_stmt);
            },
            Stmt::Other => {
                assert(self@ =~= old(self)@ + Seq::empty());
            },
        }
    }

    fn visit_expr_stmt(&mut self, stmt: &ExprStmt)
        ensures
            final(self)@ == old(self)@ + visit(stmt.expr),
    {
        self.visit_expr(&stmt.expr);
    }

    fn visit_args(&mut self, expr: &JsExpr, call_expr: &CallExpr)
        requires
            *expr == JsExpr::Call(*call_expr),
        ensures
            final(self)@ == old(self)@ + visit_args(*call_expr, call_expr.args@.len()),
        decreases expr, 0nat,
    {
        let mut i: usize = 0;
        while i < call_expr.args.len()
            invariant
                *expr == JsExpr::Call(*call_expr),
                i <= call_expr.args@.len(),
                self@ == old(self)@ + visit_args(*call_expr, i as nat),
            decreases call_expr.args@.len() - i,
        {
            proof {
                broadcast use vstd::std_specs::vec::axiom_vec_index_decreases;
                assert(decreases_to!(*expr => expr->Call_0));
                assert(decreases_to!(*call_expr => call_expr.args));
                assert(decreases_to!(call_expr.args => call_expr.args[i as int]));
                assert(decreases_to!(call_expr.args[i as int] => call_expr.args[i as int].expr));
                assert(decreases_to!(*expr => call_expr.args[i as int].expr));
            }
            self.visit_expr(&call_expr.args[i].expr);
            i = i + 1;
            assert(self@ =~= old(self)@ + visit_args(*call_expr, i as nat));
        }
    }

    /// Appends the chains found in `expr`, in source order.
    fn visit_expr(&mut self, expr: &JsExpr)
        ensures
            final(self)@ == old(self)@ + visit(*expr),
        decreases expr, 1nat,
    {
        proof {
            lemma_root_name();
        }
        if let JsExpr::Call(call_expr) = expr {
            match &*call_expr.callee {
                JsExpr::Ident(id) => {
                    if is_name(id, "$") {
                        let selector = get_selector_or_unknown(&call_expr.args);
                        let mut node = JqDomNode::new(selector);
                        parse_chain_expr(expr, &mut node);
                        self.push_node(node);
                        assert(self@ =~= old(self)@ + visit(*expr));
                        return;
                    }
                },
                JsExpr::Member(_) => {
                    let mut node = JqDomNode::new(unknown_selector_string());
                    parse_chain_expr(expr, &mut node);
                    let unknown = unknown_selector_string();
                    if !(node.selector == unknown) || node.styles.len() > 0
                        || node.text_content.is_some() || node.events.len() > 0 {
                        self.push_node(node);
                        assert(self@ =~= old(self)@ + visit(*expr));
                        return;
                    }
                },
                _ => {},
            }
            self.visit_args(expr, call_expr);
        } else {
            assert(self@ =~= old(self)@ + visit(*expr));
        }
    }
}

} // verus!
