//! The intermediate description of one selection chain.
use vstd::prelude::*;

verus! {

/// What one selection chain does to the selected element.
pub struct JqDomNode {
    /// The selector of the root call, e.g. `div.container`.
    pub selector: String,
    /// `(key, value)` pairs from `css(key, value)`.
    pub styles: Vec<(String, String)>,
    /// `(key, value)` pairs from `attr(key, value)`.
    pub attributes: Vec<(String, String)>,
    /// Names from `addClass(name)`.
    pub class_list: Vec<String>,
    /// The value from `text(value)`.
    pub text_content: Option<String>,
    /// Markup fragments from `append(markup)`.
    pub children_raw_html: Vec<String>,
    /// `(event, handler source)` pairs from `on(event, handler)`.
    pub events: Vec<(String, String)>,
}

/// The mathematical value of a [`JqDomNode`].
pub struct NodeView {
    pub selector: Seq<char>,
    pub styles: Seq<(Seq<char>, Seq<char>)>,
    pub attributes: Seq<(Seq<char>, Seq<char>)>,
    pub class_list: Seq<Seq<char>>,
    pub text_content: Option<Seq<char>>,
    pub children_raw_html: Seq<Seq<char>>,
    pub events: Seq<(Seq<char>, Seq<char>)>,
}

/// The value of a pair of strings.
pub open spec fn pair_view(p: (String, String)) -> (Seq<char>, Seq<char>) {
    (p.0@, p.1@)
}

/// The values of a sequence of string pairs.
pub open spec fn pairs_view(v: Seq<(String, String)>) -> Seq<(Seq<char>, Seq<char>)> {
    v.map_values(|p: (String, String)| pair_view(p))
}

/// The values of a sequence of strings.
pub open spec fn strings_view(v: Seq<String>) -> Seq<Seq<char>> {
    v.map_values(|s: String| s@)
}

/// The value of an optional string.
pub open spec fn opt_view(o: Option<String>) -> Option<Seq<char>> {
    match o {
        Some(s) => Some(s@),
        None => None,
    }
}

impl NodeView {
    /// A node with the given selector and nothing else recorded.
    pub open spec fn fresh(selector: Seq<char>) -> NodeView {
        NodeView {
            selector,
            styles: Seq::empty(),
            attributes: Seq::empty(),
            class_list: Seq::empty(),
            text_content: None,
            children_raw_html: Seq::empty(),
            events: Seq::empty(),
        }
    }
}

impl View for JqDomNode {
    type V = NodeView;

    open spec fn view(&self) -> NodeView {
        NodeView {
            selector: self.selector@,
            styles: pairs_view(self.styles@),
            attributes: pairs_view(self.attributes@),
            class_list: strings_view(self.class_list@),
            text_content: opt_view(self.text_content),
            children_raw_html: strings_view(self.children_raw_html@),
            events: pairs_view(self.events@),
        }
    }
}

impl JqDomNode {
    pub fn new(selector: String) -> (r: Self)
        ensures
            r@ == NodeView::fresh(selector@),
    {
        let r = JqDomNode {
            selector,
            styles: Vec::new(),
            attributes: Vec::new(),
            class_list: Vec::new(),
            text_content: None,
            children_raw_html: Vec::new(),
            events: Vec::new(),
        };
        assert(r@.styles =~= Seq::empty());
        assert(r@.attributes =~= Seq::empty());
        assert(r@.class_list =~= Seq::empty());
        assert(r@.children_raw_html =~= Seq::empty());
        assert(r@.events =~= Seq::empty());
        r
    }
}

} // verus!
