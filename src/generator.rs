//! Renders one chain description as the source text of a component.
use vstd::prelude::*;
use vstd::string::*;

use crate::dom_node::{JqDomNode, NodeView, pairs_view, strings_view};

verus! {

/// Whether `d` is the position of the first `.` in `s`.
pub open spec fn is_first_dot(s: Seq<char>, d: int) -> bool {
    &&& 0 <= d < s.len()
    &&& s[d] == '.'
    &&& forall|j: int| 0 <= j < d ==> s[j] != '.'
}

/// A selector split at its first `.`: the tag name, and the implied class
/// (none when the selector has no `.`).
pub open spec fn split_selector(s: Seq<char>) -> (Seq<char>, Seq<Seq<char>>) {
    if exists|d: int| is_first_dot(s, d) {
        let d = choose|d: int| is_first_dot(s, d);
        (s.subrange(0, d), seq![s.subrange(d + 1, s.len() as int)])
    } else {
        (s, Seq::empty())
    }
}

/// `base` followed by each entry of `adds` not already present, first seen
/// first.
pub open spec fn class_union(base: Seq<Seq<char>>, adds: Seq<Seq<char>>) -> Seq<Seq<char>>
    decreases adds.len(),
{
    if adds.len() == 0 {
        base
    } else {
        let u = class_union(base, adds.drop_last());
        if u.contains(adds.last()) {
            u
        } else {
            u.push(adds.last())
        }
    }
}

/// The entries of `xs` with `sep` between neighbours.
pub open spec fn join(xs: Seq<Seq<char>>, sep: Seq<char>) -> Seq<char>
    decreases xs.len(),
{
    if xs.len() == 0 {
        Seq::empty()
    } else if xs.len() == 1 {
        xs[0]
    } else {
        join(xs.drop_last(), sep) + sep + xs.last()
    }
}

/// The entries of `xs`, one after another.
pub open spec fn concat_all(xs: Seq<Seq<char>>) -> Seq<char>
    decreases xs.len(),
{
    if xs.len() == 0 {
        Seq::empty()
    } else {
        concat_all(xs.drop_last()) + xs.last()
    }
}

/// One style entry of the inline style object: `key: "value"`.
pub open spec fn style_pair(p: (Seq<char>, Seq<char>)) -> Seq<char> {
    p.0 + ": \""@ + p.1 + "\""@
}

/// Each style entry rendered as `key: "value"`.
pub open spec fn style_pairs(styles: Seq<(Seq<char>, Seq<char>)>) -> Seq<Seq<char>> {
    styles.map_values(|p: (Seq<char>, Seq<char>)| style_pair(p))
}

/// The inline style attribute, empty when there are no styles.
pub open spec fn style_part(styles: Seq<(Seq<char>, Seq<char>)>) -> Seq<char> {
    if styles.len() == 0 {
        Seq::empty()
    } else {
        " style={ { "@ + join(style_pairs(styles), ", "@)
            + " } }"@
    }
}

/// The class attribute, empty when there are no classes.
pub open spec fn class_part(classes: Seq<Seq<char>>) -> Seq<char> {
    if classes.len() == 0 {
        Seq::empty()
    } else {
        " className=\""@ + join(classes, " "@) + "\""@
    }
}

/// The handler attribute name for an event. Every event, `click` and any
/// other, is bound through `onClick`.
pub open spec fn handler_name(evt: Seq<char>) -> Seq<char> {
    "onClick"@
}

/// One event binding: the handler source wrapped in an inline callback.
pub open spec fn event_attr(evt: (Seq<char>, Seq<char>)) -> Seq<char> {
    " "@ + handler_name(evt.0) + "={(e) => { "@ + evt.1 + " } }"@
}

/// Each event binding rendered as an attribute.
pub open spec fn event_attrs_of(events: Seq<(Seq<char>, Seq<char>)>) -> Seq<Seq<char>> {
    events.map_values(|e: (Seq<char>, Seq<char>)| event_attr(e))
}

/// The event bindings, in order.
pub open spec fn events_part(events: Seq<(Seq<char>, Seq<char>)>) -> Seq<char> {
    concat_all(event_attrs_of(events))
}

/// The element body: the text, then each raw markup fragment, verbatim.
pub open spec fn inner_part(n: NodeView) -> Seq<char> {
    let txt = match n.text_content {
        Some(t) => t,
        None => Seq::empty(),
    };
    txt + concat_all(n.children_raw_html)
}

/// The markup element that a chain describes.
pub open spec fn jsx_of(n: NodeView) -> Seq<char> {
    let (tag, implied) = split_selector(n.selector);
    let classes = class_union(implied, n.class_list);
    "<"@ + tag + class_part(classes) + style_part(n.styles) + events_part(n.events) + ">"@
        + inner_part(n) + "</"@ + tag + ">"@
}

/// The start of the component template, up to the element.
pub open spec fn template_head() -> Seq<char> {
    "function MyComponent() {\n        return (\n            "@
}

/// The end of the component template, after the element.
pub open spec fn template_tail() -> Seq<char> {
    "\n        );\n    }"@
}

/// The component source text that a chain is rendered as.
pub open spec fn react_code(n: NodeView) -> Seq<char> {
    template_head() + jsx_of(n) + template_tail()
}

fn join_strings(xs: &Vec<String>, sep: &str) -> (r: String)
    ensures
        r@ == join(strings_view(xs@), sep@),
{
    let ghost sv = strings_view(xs@);
    let mut r = String::new();
    if xs.len() == 0 {
        return r;
    }
    r.append(xs[0].as_str());
    assert(sv.subrange(0, 1) =~= seq![sv[0]]);
    let mut i: usize = 1;
    while i < xs.len()
        invariant
            1 <= i <= xs@.len(),
            sv == strings_view(xs@),
            r@ == join(sv.subrange(0, i as int), sep@),
        decreases xs@.len() - i,
    {
        r.append(sep);
        r.append(xs[i].as_str());
        assert(sv.subrange(0, i + 1).drop_last() =~= sv.subrange(0, i as int));
        i = i + 1;
    }
    assert(sv.subrange(0, xs@.len() as int) =~= sv);
    r
}

fn concat_strings(r: &mut String, xs: &Vec<String>)
    ensures
        final(r)@ == old(r)@ + concat_all(strings_view(xs@)),
{
    let ghost sv = strings_view(xs@);
    let mut i: usize = 0;
    assert(sv.subrange(0, 0) =~= Seq::<Seq<char>>::empty());
    while i < xs.len()
        invariant
            i <= xs@.len(),
            sv == strings_view(xs@),
            r@ == old(r)@ + concat_all(sv.subrange(0, i as int)),
        decreases xs@.len() - i,
    {
        r.append(xs[i].as_str());
        assert(sv.subrange(0, i + 1).drop_last() =~= sv.subrange(0, i as int));
        i = i + 1;
    }
    assert(sv.subrange(0, xs@.len() as int) =~= sv);
}

fn contains_string(v: &Vec<String>, s: &String) -> (r: bool)
    ensures
        r == strings_view(v@).contains(s@),
{
    let mut i: usize = 0;
    while i < v.len()
        invariant
            i <= v@.len(),
            forall|j: int| 0 <= j < i ==> v@[j]@ != s@,
        decreases v@.len() - i,
    {
        if v[i] == *s {
            assert(strings_view(v@)[i as int] == s@);
            return true;
        }
        i = i + 1;
    }
    assert forall|j: int| 0 <= j < strings_view(v@).len() implies strings_view(v@)[j] != s@ by {
        assert(v@[j]@ != s@);
    }
    false
}

/// Splits a selector at its first `.` into the tag name and the implied
/// class, if any.
pub fn parse_selector(sel: &str) -> (r: (String, Vec<String>))
    ensures
        (r.0@, strings_view(r.1@)) == split_selector(sel@),
{
    let n = sel.unicode_len();
    let mut i: usize = 0;
    while i < n
        invariant
            n == sel@.len(),
            i <= n,
            forall|j: int| 0 <= j < i ==> sel@[j] != '.',
        decreases n - i,
    {
        if sel.get_char(i) == '.' {
            assert(is_first_dot(sel@, i as int));
            let ghost d = choose|d: int| is_first_dot(sel@, d);
            assert(d == i);
            let tag = sel.substring_char(0, i).to_owned();
            let cls = sel.substring_char(i + 1, n).to_owned();
            let mut classes: Vec<String> = Vec::new();
            classes.push(cls);
            assert(strings_view(classes@) =~= seq![sel@.subrange(i + 1, n as int)]);
            return (tag, classes);
        }
        i = i + 1;
    }
    assert(!exists|d: int| is_first_dot(sel@, d));
    let classes: Vec<String> = Vec::new();
    assert(strings_view(classes@) =~= Seq::<Seq<char>>::empty());
    (sel.to_owned(), classes)
}

/// The handler attribute name for `evt`; see [`handler_name`].
fn react_event_name(evt: &String) -> (r: &'static str)
    ensures
        r@ == handler_name(evt@),
{
    "onClick"
}

fn merge_classes(implied: Vec<String>, class_list: &Vec<String>) -> (r: Vec<String>)
    ensures
        strings_view(r@) == class_union(strings_view(implied@), strings_view(class_list@)),
{
    let ghost base = strings_view(implied@);
    let ghost adds = strings_view(class_list@);
    let mut all_classes = implied;
    let mut i: usize = 0;
    assert(adds.subrange(0, 0) =~= Seq::<Seq<char>>::empty());
    while i < class_list.len()
        invariant
            i <= class_list@.len(),
            adds == strings_view(class_list@),
            strings_view(all_classes@) == class_union(base, adds.subrange(0, i as int)),
        decreases class_list@.len() - i,
    {
        let c = &class_list[i];
        assert(adds.subrange(0, i + 1).drop_last() =~= adds.subrange(0, i as int));
        assert(adds.subrange(0, i + 1).last() == c@);
        if !contains_string(&all_classes, c) {
            let ghost before = strings_view(all_classes@);
            all_classes.push(c.clone());
            assert(strings_view(all_classes@) =~= before.push(c@));
        }
        i = i + 1;
    }
    assert(adds.subrange(0, class_list@.len() as int) =~= adds);
    all_classes
}

fn style_attr(styles: &Vec<(String, String)>) -> (r: String)
    ensures
        r@ == style_part(pairs_view(styles@)),
{
    let ghost sv = pairs_view(styles@);
    let mut r = String::new();
    if styles.len() == 0 {
        return r;
    }
    let mut pairs: Vec<String> = Vec::new();
    let mut i: usize = 0;
    while i < styles.len()
        invariant
            i <= styles@.len(),
            sv == pairs_view(styles@),
            strings_view(pairs@) == style_pairs(sv.subrange(0, i as int)),
        decreases styles@.len() - i,
    {
        let (k, v) = &styles[i];
        let mut pair = k.clone();
        pair.append(": \"");
        pair.append(v.as_str());
        pair.append("\"");
        assert(pair@ == style_pair(sv[i as int]));
        let ghost before = strings_view(pairs@);
        pairs.push(pair);
        assert(strings_view(pairs@) =~= before.push(style_pair(sv[i as int])));
        assert(style_pairs(sv.subrange(0, i + 1)) =~= style_pairs(sv.subrange(0, i as int)).push(
            style_pair(sv[i as int]),
        ));
        i = i + 1;
    }
    assert(sv.subrange(0, styles@.len() as int) =~= sv);
    let joined = join_strings(&pairs, ", ");
    r.append(" style={ { ");
    r.append(joined.as_str());
    r.append(" } }");
    assert(r@ =~= style_part(sv));
    r
}

fn class_attr(classes: &Vec<String>) -> (r: String)
    ensures
        r@ == class_part(strings_view(classes@)),
{
    let mut r = String::new();
    if classes.len() == 0 {
        return r;
    }
    let joined = join_strings(classes, " ");
    r.append(" className=\"");
    r.append(joined.as_str());
    r.append("\"");
    assert(r@ =~= class_part(strings_view(classes@)));
    r
}

fn event_attrs(events: &Vec<(String, String)>) -> (r: String)
    ensures
        r@ == events_part(pairs_view(events@)),
{
    let ghost ev = pairs_view(events@);
    let mut r = String::new();
    let mut i: usize = 0;
    assert(event_attrs_of(ev.subrange(0, 0)) =~= Seq::<Seq<char>>::empty());
    while i < events.len()
        invariant
            i <= events@.len(),
            ev == pairs_view(events@),
            r@ == concat_all(event_attrs_of(ev.subrange(0, i as int))),
        decreases events@.len() - i,
    {
        let (evt, cb) = &events[i];
        let ghost before = r@;
        r.append(" ");
        r.append(react_event_name(evt));
        r.append("={(e) => { ");
        r.append(cb.as_str());
        r.append(" } }");
        let ghost s = event_attrs_of(ev.subrange(0, i + 1));
        assert(s.drop_last() =~= event_attrs_of(ev.subrange(0, i as int)));
        assert(s.last() == event_attr(ev[i as int]));
        assert(r@ =~= before + event_attr(ev[i as int]));
        i = i + 1;
    }
    assert(ev.subrange(0, events@.len() as int) =~= ev);
    r
}

/// The markup element that `node` describes.
pub fn node_to_jsx(node: &JqDomNode) -> (r: String)
    ensures
        r@ == jsx_of(node@),
{
    let (tag, classes) = parse_selector(node.selector.as_str());
    let all_classes = merge_classes(classes, &node.class_list);
    let style_part = style_attr(&node.styles);

    let mut inner = String::new();
    if let Some(txt) = &node.text_content {
        inner.append(txt.as_str());
    }
    concat_strings(&mut inner, &node.children_raw_html);

    let event_str = event_attrs(&node.events);
    let class_str = class_attr(&all_classes);

    let mut r = String::new();
    r.append("<");
    r.append(tag.as_str());
    r.append(class_str.as_str());
    r.append(style_part.as_str());
    r.append(event_str.as_str());
    r.append(">");
    r.append(inner.as_str());
    r.append("</");
    r.append(tag.as_str());
    r.append(">");
    assert(inner@ =~= inner_part(node@));
    assert(r@ =~= jsx_of(node@));
    r
}

/// The source text of a component that returns the element `node`
/// describes.
pub fn generate_react_code(node: &JqDomNode) -> (r: String)
    ensures
        r@ == react_code(node@),
{
    let jsx = node_to_jsx(node);
    let mut r = String::new();
    r.append("function MyComponent() {\n        return (\n            ");
    r.append(jsx.as_str());
    r.append("\n        );\n    }");
    assert(r@ =~= react_code(node@));
    r
}

} // verus!
