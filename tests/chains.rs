use jquery_react::ast::{CallExpr, ExprOrSpread, ExprStmt, JsExpr, MemberExpr, Module, ModuleItem, Stmt};
use jquery_react::dom_node::JqDomNode;
use jquery_react::generator::{generate_react_code, node_to_jsx, parse_selector};
use jquery_react::transform::{parse_chain_expr, JqueryCollector};
use jquery_react::transpile_parsed;

fn lit(v: &str) -> ExprOrSpread {
    ExprOrSpread { expr: JsExpr::Str(v.to_string()), text: v.to_string() }
}

fn other_arg(text: &str) -> ExprOrSpread {
    ExprOrSpread { expr: JsExpr::Other, text: text.to_string() }
}

fn call(callee: JsExpr, args: Vec<ExprOrSpread>) -> JsExpr {
    JsExpr::Call(CallExpr { callee: Box::new(callee), args })
}

fn root(sel: &str) -> JsExpr {
    call(JsExpr::Ident("$".to_string()), vec![lit(sel)])
}

fn method(obj: JsExpr, name: &str, args: Vec<ExprOrSpread>) -> JsExpr {
    call(JsExpr::Member(MemberExpr { obj: Box::new(obj), prop: Some(name.to_string()) }), args)
}

fn stmt(e: JsExpr) -> ModuleItem {
    ModuleItem::Stmt(Stmt::Expr(ExprStmt { expr: e }))
}

fn module_of(items: Vec<ModuleItem>) -> Module {
    Module { body: items }
}

fn collect(items: Vec<ModuleItem>) -> Vec<JqDomNode> {
    let mut collector = JqueryCollector { nodes: vec![] };
    collector.collect_from_module(&module_of(items));
    collector.nodes
}

fn template(jsx: &str) -> String {
    format!("function MyComponent() {{\n        return (\n            {}\n        );\n    }}", jsx)
}

fn pairs(v: &[(&str, &str)]) -> Vec<(String, String)> {
    v.iter().map(|(a, b)| (a.to_string(), b.to_string())).collect()
}

#[test]
fn new_node_is_empty() {
    let n = JqDomNode::new("div".to_string());
    assert_eq!(n.selector, "div");
    assert!(n.styles.is_empty() && n.attributes.is_empty() && n.class_list.is_empty());
    assert!(n.text_content.is_none() && n.children_raw_html.is_empty() && n.events.is_empty());
}

#[test]
fn sequence_fields_are_stored_in_reverse_call_order() {
    let e = method(
        method(method(root("div"), "css", vec![lit("a"), lit("1")]), "css", vec![lit("b"), lit("2")]),
        "text",
        vec![lit("x")],
    );
    let nodes = collect(vec![stmt(e)]);
    assert_eq!(nodes.len(), 1);
    assert_eq!(nodes[0].selector, "div");
    assert_eq!(nodes[0].styles, pairs(&[("b", "2"), ("a", "1")]));
    assert_eq!(nodes[0].text_content, Some("x".to_string()));
}

#[test]
fn earliest_text_call_wins() {
    let e = method(method(root("p"), "text", vec![lit("first")]), "text", vec![lit("second")]);
    let mut n = JqDomNode::new("unknown_selector".to_string());
    parse_chain_expr(&e, &mut n);
    assert_eq!(n.selector, "p");
    assert_eq!(n.text_content, Some("first".to_string()));
}

#[test]
fn every_method_is_recorded() {
    let e = method(
        method(
            method(
                method(root("ul"), "append", vec![lit("<li>1</li>")]),
                "append",
                vec![lit("<li>2</li>")],
            ),
            "attr",
            vec![lit("id"), lit("list")],
        ),
        "addClass",
        vec![lit("menu")],
    );
    let nodes = collect(vec![stmt(e)]);
    assert_eq!(nodes.len(), 1);
    assert_eq!(nodes[0].children_raw_html, vec!["<li>2</li>".to_string(), "<li>1</li>".to_string()]);
    assert_eq!(nodes[0].attributes, pairs(&[("id", "list")]));
    assert_eq!(nodes[0].class_list, vec!["menu".to_string()]);
}

#[test]
fn wrong_arity_and_non_literal_arguments_are_ignored() {
    let e = method(
        method(
            method(
                method(root("div"), "css", vec![lit("a")]),
                "css",
                vec![lit("a"), lit("1"), lit("extra")],
            ),
            "text",
            vec![other_arg("someVar")],
        ),
        "unknownMethod",
        vec![lit("z")],
    );
    let nodes = collect(vec![stmt(e)]);
    assert_eq!(nodes.len(), 1);
    assert!(nodes[0].styles.is_empty());
    assert!(nodes[0].text_content.is_none());
}

#[test]
fn on_keeps_the_rendering_of_the_second_argument() {
    let e = method(root("a"), "on", vec![lit("click"), other_arg("handler"), lit("ignored")]);
    let nodes = collect(vec![stmt(e)]);
    assert_eq!(nodes[0].events, pairs(&[("click", "handler")]));
}

#[test]
fn selector_sentinel_for_missing_or_empty_literal() {
    let no_arg = call(JsExpr::Ident("$".to_string()), vec![]);
    let empty = root("");
    let non_lit = call(JsExpr::Ident("$".to_string()), vec![other_arg("el")]);
    let nodes = collect(vec![stmt(no_arg), stmt(empty), stmt(non_lit)]);
    assert_eq!(nodes.len(), 3);
    for n in &nodes {
        assert_eq!(n.selector, "unknown_selector");
    }
}

#[test]
fn member_chain_without_root_is_kept_when_it_records() {
    let e = method(JsExpr::Ident("el".to_string()), "css", vec![lit("color"), lit("red")]);
    let nodes = collect(vec![stmt(e)]);
    assert_eq!(nodes.len(), 1);
    assert_eq!(nodes[0].selector, "unknown_selector");
    assert_eq!(nodes[0].styles, pairs(&[("color", "red")]));
}

#[test]
fn member_chain_without_effect_is_searched_in_arguments() {
    let inner = root("span");
    let e = method(JsExpr::Ident("console".to_string()), "log", vec![ExprOrSpread {
        expr: inner,
        text: String::new(),
    }]);
    let nodes = collect(vec![stmt(e)]);
    assert_eq!(nodes.len(), 1);
    assert_eq!(nodes[0].selector, "span");
}

#[test]
fn chains_nested_in_call_arguments_are_found() {
    let e = call(JsExpr::Ident("wrap".to_string()), vec![
        lit("x"),
        ExprOrSpread { expr: method(root("div"), "text", vec![lit("hi")]), text: String::new() },
    ]);
    let nodes = collect(vec![stmt(e)]);
    assert_eq!(nodes.len(), 1);
    assert_eq!(nodes[0].text_content, Some("hi".to_string()));
}

#[test]
fn declarations_and_other_statements_are_ignored() {
    let nodes = collect(vec![ModuleItem::ModuleDecl, ModuleItem::Stmt(Stmt::Other), stmt(JsExpr::Other)]);
    assert!(nodes.is_empty());
}

#[test]
fn all_chains_are_collected_in_source_order() {
    let nodes = collect(vec![stmt(root("a")), stmt(root("b"))]);
    let sels: Vec<&str> = nodes.iter().map(|n| n.selector.as_str()).collect();
    assert_eq!(sels, vec!["a", "b"]);
}

#[test]
fn selector_decomposition() {
    assert_eq!(parse_selector("div.box"), ("div".to_string(), vec!["box".to_string()]));
    assert_eq!(parse_selector("span"), ("span".to_string(), vec![]));
    assert_eq!(parse_selector("a.b.c"), ("a".to_string(), vec!["b.c".to_string()]));
    assert_eq!(parse_selector(".only"), ("".to_string(), vec!["only".to_string()]));
}

#[test]
fn class_union_has_no_repeats() {
    let e = method(method(root("div.box"), "addClass", vec![lit("box")]), "addClass", vec![lit("extra")]);
    let nodes = collect(vec![stmt(e)]);
    assert_eq!(node_to_jsx(&nodes[0]), "<div className=\"box extra\"></div>");
}

#[test]
fn styles_render_in_stored_order() {
    let e = method(method(root("div"), "css", vec![lit("a"), lit("1")]), "css", vec![lit("b"), lit("2")]);
    let nodes = collect(vec![stmt(e)]);
    assert_eq!(node_to_jsx(&nodes[0]), "<div style={ { b: \"2\", a: \"1\" } }></div>");
}

#[test]
fn body_is_text_then_fragments() {
    let mut n = JqDomNode::new("ul".to_string());
    n.text_content = Some("T".to_string());
    n.children_raw_html = vec!["<li>1</li>".to_string(), "<li>2</li>".to_string()];
    n.attributes = pairs(&[("id", "x")]);
    assert_eq!(node_to_jsx(&n), "<ul>T<li>1</li><li>2</li></ul>");
}

#[test]
fn full_element_attribute_order() {
    let mut n = JqDomNode::new("a.link".to_string());
    n.styles = pairs(&[("color", "red")]);
    n.events = pairs(&[("click", "go()")]);
    n.text_content = Some("x".to_string());
    assert_eq!(
        generate_react_code(&n),
        template("<a className=\"link\" style={ { color: \"red\" } } onClick={(e) => { go() } }>x</a>")
    );
}

#[test]
fn end_to_end_text() {
    let m = module_of(vec![stmt(method(root("p"), "text", vec![lit("Hello!")]))]);
    let out = transpile_parsed(&Ok(m));
    assert_eq!(out, template("<p>Hello!</p>"));
    assert!(out.contains("<p>Hello!</p>"));
    assert!(!out.contains("style=") && !out.contains("className=") && !out.contains("onClick"));
}

#[test]
fn end_to_end_click_event() {
    let m = module_of(vec![stmt(method(root("button"), "on", vec![lit("click"), lit("doThing()")]))]);
    let out = transpile_parsed(&Ok(m));
    assert_eq!(out, template("<button onClick={(e) => { doThing() } }></button>"));
}

#[test]
fn end_to_end_other_event_uses_click_handler_name() {
    let m = module_of(vec![stmt(method(root("button"), "on", vec![lit("hover"), lit("doThing()")]))]);
    let out = transpile_parsed(&Ok(m));
    assert_eq!(out, template("<button onClick={(e) => { doThing() } }></button>"));
}

#[test]
fn only_the_first_chain_is_rendered() {
    let m = module_of(vec![stmt(root("first")), stmt(root("second"))]);
    assert_eq!(transpile_parsed(&Ok(m)), template("<first></first>"));
}

#[test]
fn parse_failure_is_reported_with_marker() {
    let out = transpile_parsed(&Err("Unexpected token".to_string()));
    assert!(out.starts_with("// parse error: "));
    assert_eq!(out, "// parse error: Unexpected token");
}

#[test]
fn no_root_call_gives_placeholder() {
    let placeholder = "// No usage found\nfunction MyComponent(){}";
    let m = module_of(vec![stmt(call(JsExpr::Ident("foo".to_string()), vec![lit("1")]))]);
    assert_eq!(transpile_parsed(&Ok(m)), placeholder);
    assert_eq!(transpile_parsed(&Ok(module_of(vec![]))), placeholder);
}

#[test]
fn single_argument_methods_ignore_extra_arguments() {
    let e = method(method(root("p"), "text", vec![lit("a"), lit("b")]), "text", vec![lit("c")]);
    let nodes = collect(vec![stmt(e)]);
    assert_eq!(nodes[0].text_content, Some("c".to_string()));

    let e = method(
        method(method(root("p"), "addClass", vec![lit("a"), lit("b")]), "append", vec![lit("x"), lit("y")]),
        "text",
        vec![],
    );
    let nodes = collect(vec![stmt(e)]);
    assert!(nodes[0].class_list.is_empty());
    assert!(nodes[0].children_raw_html.is_empty());
    assert!(nodes[0].text_content.is_none());
}
