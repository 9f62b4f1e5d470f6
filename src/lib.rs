//! Rewrites a chained DOM-selection call such as
//! `$("div.box").css("color", "red").text("Hello")` into the source text of a
//! component that returns the equivalent markup element.
//!
//! The syntax tree is supplied by an ECMAScript front-end and reduced to the
//! small expression model of [`ast`]; everything from there on is verified.
use vstd::prelude::*;
use vstd::string::*;

pub mod ast;
pub mod dom_node;
pub mod generator;
pub mod laws;
pub mod transform;

use crate::ast::Module;
use crate::generator::{generate_react_code, react_code};
use crate::transform::{JqueryCollector, module_chains};

verus! {

/// What the output starts with when the source could not be parsed.
pub open spec fn parse_error_marker() -> Seq<char> {
    "// parse error: "@
}

/// The output when the source holds no chain.
pub open spec fn no_usage_placeholder() -> Seq<char> {
    "// No usage found\nfunction MyComponent(){}"@
}

/// The output for a front-end result: the parse failure's detail after the
/// marker; the placeholder when no chain was found; else the component for
/// the first chain in source order.
pub open spec fn transpiled(parsed: Result<Module, String>) -> Seq<char> {
    match parsed {
        Err(detail) => parse_error_marker() + detail@,
        Ok(m) => {
            let chains = module_chains(m);
            if chains.len() == 0 {
                no_usage_placeholder()
            } else {
                react_code(chains[0])
            }
        },
    }
}

/// Turns the front-end's result for one source text into the output text.
pub fn transpile_parsed(parsed: &Result<Module, String>) -> (r: String)
    ensures
        r@ == transpiled(*parsed),
{
    let module = match parsed {
        Ok(m) => m,
        Err(detail) => {
            let mut r = "// parse error: ".to_owned();
            r.append(detail.as_str());
            return r;
        },
    };
    let mut collector = JqueryCollector { nodes: Vec::new() };
    assert(collector@ =~= Seq::empty());
    collector.collect_from_module(module);
    assert(collector@ =~= module_chains(*module));
    if collector.nodes.len() == 0 {
        return "// No usage found\nfunction MyComponent(){}".to_owned();
    }
    // only the first chain is rendered
    let node = &collector.nodes[0];
    generate_react_code(node)
}

} // verus!
