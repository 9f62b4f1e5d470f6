//! The closed set of syntax shapes that chain recognition reads.
use vstd::prelude::*;

verus! {

/// An expression, reduced to the shapes that chain recognition inspects.
pub enum JsExpr {
    /// A string literal, with its value.
    Str(String),
    /// A bare identifier, with its name.
    Ident(String),
    /// A call.
    Call(CallExpr),
    /// A member access.
    Member(MemberExpr),
    /// Any other expression.
    Other,
}

/// A call: the callee and the ordered argument list.
pub struct CallExpr {
    pub callee: Box<JsExpr>,
    pub args: Vec<ExprOrSpread>,
}

/// A member access `<obj>.<prop>`; `prop` is `None` unless the property is a
/// plain name.
pub struct MemberExpr {
    pub obj: Box<JsExpr>,
    pub prop: Option<String>,
}

/// One argument of a call: the expression, and its textual rendering as given
/// by the front-end (used verbatim as an event handler's source).
pub struct ExprOrSpread {
    pub expr: JsExpr,
    pub text: String,
}

/// A statement; only expression statements are told apart.
pub enum Stmt {
    Expr(ExprStmt),
    Other,
}

/// An expression statement.
pub struct ExprStmt {
    pub expr: JsExpr,
}

/// A top-level item of a module: a statement, or a declaration such as an
/// import or an export.
pub enum ModuleItem {
    Stmt(Stmt),
    ModuleDecl,
}

/// A parsed program: its top-level items in source order.
pub struct Module {
    pub body: Vec<ModuleItem>,
}

/// The value of `e` when it is a string literal.
pub open spec fn str_lit(e: JsExpr) -> Option<Seq<char>> {
    match e {
        JsExpr::Str(s) => Some(s@),
        _ => None,
    }
}

/// Whether `e` is the bare root-selector identifier `$`.
pub open spec fn is_root_ident(e: JsExpr) -> bool {
    e matches JsExpr::Ident(id) && id@ == seq!['$']
}

/// Whether `e` is a call whose callee is a member access with property `m`.
pub open spec fn is_method_call(e: JsExpr, m: Seq<char>) -> bool {
    e matches JsExpr::Call(c) && *c.callee matches JsExpr::Member(mem)
        && mem.prop matches Some(p) && p@ == m
}

/// Whether some call in `e` (its callee, the receivers of member accesses and
/// the arguments included) satisfies `pred`.
pub open spec fn some_call(e: JsExpr, pred: spec_fn(JsExpr) -> bool) -> bool
    decreases e, 1nat,
{
    match e {
        JsExpr::Call(c) => {
            ||| pred(e)
            ||| some_call(*c.callee, pred)
            ||| some_arg_call(c, c.args.len() as nat, pred)
        },
        JsExpr::Member(m) => some_call(*m.obj, pred),
        _ => false,
    }
}

/// Whether some call in the first `k` arguments of `c` satisfies `pred`.
pub open spec fn some_arg_call(c: CallExpr, k: nat, pred: spec_fn(JsExpr) -> bool) -> bool
    decreases c, 0nat, k,
{
    if k == 0 || k > c.args.len() {
        false
    } else {
        some_arg_call(c, (k - 1) as nat, pred) || some_call(c.args[k - 1].expr, pred)
    }
}

} // verus!
