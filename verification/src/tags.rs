//! The named elements: one constructor for each tag.

use crate::attributes::{Attr, Attributed};
use crate::node::{Children, Content, Element, Node};
use vstd::prelude::*;

verus! {

/// A `html` element around the given children.
pub fn html<T: Children>(children: T) -> (out: Element)
    ensures
        out@ == Node::plain("html"@, children.contents()),
{
    Element::new("html", children)
}

/// A `body` element around the given children.
pub fn body<T: Children>(children: T) -> (out: Element)
    ensures
        out@ == Node::plain("body"@, children.contents()),
{
    Element::new("body", children)
}

/// A `head` element around the given children.
pub fn head<T: Children>(children: T) -> (out: Element)
    ensures
        out@ == Node::plain("head"@, children.contents()),
{
    Element::new("head", children)
}

/// A `div` element around the given children.
pub fn div<T: Children>(children: T) -> (out: Element)
    ensures
        out@ == Node::plain("div"@, children.contents()),
{
    Element::new("div", children)
}

/// A `ol` element around the given children.
pub fn ol<T: Children>(children: T) -> (out: Element)
    ensures
        out@ == Node::plain("ol"@, children.contents()),
{
    Element::new("ol", children)
}

/// A `ul` element around the given children.
pub fn ul<T: Children>(children: T) -> (out: Element)
    ensures
        out@ == Node::plain("ul"@, children.contents()),
{
    Element::new("ul", children)
}

/// A `p` element that holds the literal `text`.
pub fn p(text: &str) -> (out: Element)
    ensures
        out@ == Node::plain("p"@, seq![Content::Text(text@)]),
{
    Element::new_content("p", text)
}

/// A `li` element that holds the literal `text`.
pub fn li(text: &str) -> (out: Element)
    ensures
        out@ == Node::plain("li"@, seq![Content::Text(text@)]),
{
    Element::new_content("li", text)
}

/// A `title` element that holds the literal `text`.
pub fn title(text: &str) -> (out: Element)
    ensures
        out@ == Node::plain("title"@, seq![Content::Text(text@)]),
{
    Element::new_content("title", text)
}

/// A `button` element that holds the literal `text`.
pub fn button(text: &str) -> (out: Element)
    ensures
        out@ == Node::plain("button"@, seq![Content::Text(text@)]),
{
    Element::new_content("button", text)
}

/// A `h1` element that holds the literal `text`.
pub fn h1(text: &str) -> (out: Element)
    ensures
        out@ == Node::plain("h1"@, seq![Content::Text(text@)]),
{
    Element::new_content("h1", text)
}

/// A `h2` element that holds the literal `text`.
pub fn h2(text: &str) -> (out: Element)
    ensures
        out@ == Node::plain("h2"@, seq![Content::Text(text@)]),
{
    Element::new_content("h2", text)
}

/// A `h3` element that holds the literal `text`.
pub fn h3(text: &str) -> (out: Element)
    ensures
        out@ == Node::plain("h3"@, seq![Content::Text(text@)]),
{
    Element::new_content("h3", text)
}

/// A `h4` element that holds the literal `text`.
pub fn h4(text: &str) -> (out: Element)
    ensures
        out@ == Node::plain("h4"@, seq![Content::Text(text@)]),
{
    Element::new_content("h4", text)
}

/// A `h5` element that holds the literal `text`.
pub fn h5(text: &str) -> (out: Element)
    ensures
        out@ == Node::plain("h5"@, seq![Content::Text(text@)]),
{
    Element::new_content("h5", text)
}

/// A `h6` element that holds the literal `text`.
pub fn h6(text: &str) -> (out: Element)
    ensures
        out@ == Node::plain("h6"@, seq![Content::Text(text@)]),
{
    Element::new_content("h6", text)
}

/// A `input` element that holds the literal `text`.
pub fn input(text: &str) -> (out: Element)
    ensures
        out@ == Node::plain("input"@, seq![Content::Text(text@)]),
{
    Element::new_content("input", text)
}

/// A `label` element that holds the literal `text`.
pub fn label(text: &str) -> (out: Element)
    ensures
        out@ == Node::plain("label"@, seq![Content::Text(text@)]),
{
    Element::new_content("label", text)
}

/// A node without children whose attributes are those given, in order.
pub open spec fn empty_node(tag: Seq<char>, attrs: Seq<Attr>) -> Node {
    Node { tag, attrs, children: Seq::empty() }
}

/// An element called `tag` without children and without attributes.
fn empty(tag: &str) -> (out: Element)
    ensures
        out@ == empty_node(tag@, Seq::empty()),
{
    let none: Vec<Element> = Vec::new();
    let out = Element::new(tag, none);
    assert(out@.children =~= Seq::<Content>::empty());
    out
}

/// An `image` element that shows the picture at `src`.
pub fn image(src: &str) -> (out: Element)
    ensures
        out@ == empty_node("image"@, seq![Attr { name: "src"@, value: src@ }]),
{
    let out = empty("image").set_attribute("src", src);
    assert(out@.attrs =~= seq![Attr { name: "src"@, value: src@ }]);
    out
}

/// A `script` element that loads the script at `src`.
pub fn script(src: &str) -> (out: Element)
    ensures
        out@ == empty_node("script"@, seq![Attr { name: "src"@, value: src@ }]),
{
    let out = empty("script").set_attribute("src", src);
    assert(out@.attrs =~= seq![Attr { name: "src"@, value: src@ }]);
    out
}

/// A `link` element that refers to `href` in the relation `rel`.
pub fn link(href: &str, rel: &str) -> (out: Element)
    ensures
        out@ == empty_node(
            "link"@,
            seq![Attr { name: "href"@, value: href@ }, Attr { name: "rel"@, value: rel@ }],
        ),
{
    let first = empty("link").set_attribute("href", href);
    assert(first@.attrs =~= seq![Attr { name: "href"@, value: href@ }]);
    let out = first.set_attribute("rel", rel);
    proof {
        reveal_strlit("href");
        reveal_strlit("rel");
        assert("href"@ != "rel"@) by {
            assert("href"@.len() != "rel"@.len());
        }
        assert(out@.attrs =~= seq![
            Attr { name: "href"@, value: href@ },
            Attr { name: "rel"@, value: rel@ },
        ]);
    }
    out
}

} // verus!
