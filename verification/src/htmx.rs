//! Remote interaction: the request, target, swap and trigger attributes of a
//! node. Each of them has a single slot: a later write replaces an earlier one.

use crate::attributes::{lookup, replace_value, replace_value_stores, replace_value_twice, Attributed};
use crate::node::{Element, Node};
use vstd::prelude::*;

verus! {

/// A pattern that picks elements of the document.
pub enum Selector {
    Class(String),
    Id(String),
    Tag(String),
    Any,
}

impl Selector {
    /// The selector as it is written: a class after a dot, an identifier
    /// after a hash sign, a tag as it is, and nothing for any element.
    pub open spec fn text(&self) -> Seq<char> {
        match self {
            Selector::Class(x) => seq!['.'] + x@,
            Selector::Id(x) => seq!['#'] + x@,
            Selector::Tag(x) => x@,
            Selector::Any => Seq::empty(),
        }
    }

    /// The selector as it is written.
    pub fn to_string(&self) -> (out: String)
        ensures
            out@ == self.text(),
    {
        let mut out = String::new();
        proof {
            reveal_strlit(".");
            reveal_strlit("#");
        }
        match self {
            Selector::Class(x) => {
                out.append(".");
                out.append(x.as_str());
            },
            Selector::Id(x) => {
                out.append("#");
                out.append(x.as_str());
            },
            Selector::Tag(x) => {
                out.append(x.as_str());
            },
            Selector::Any => {},
        }
        assert("."@ =~= seq!['.']);
        assert("#"@ =~= seq!['#']);
        assert(out@ =~= self.text());
        out
    }
}

/// The element that receives the response of a request.
pub enum Target {
    This,
    Closest(Selector),
    Find(Selector),
    Next(Selector),
    Previous(Selector),
    Selector(Selector),
}

impl Target {
    /// The target as it is written: the keyword `this`, or the selector,
    /// behind the direction and a space where there is a direction.
    pub open spec fn text(&self) -> Seq<char> {
        match self {
            Target::This => "this"@,
            Target::Closest(x) => "closest "@ + x.text(),
            Target::Find(x) => "find "@ + x.text(),
            Target::Next(x) => "next "@ + x.text(),
            Target::Previous(x) => "previous "@ + x.text(),
            Target::Selector(x) => x.text(),
        }
    }

    /// The target as it is written.
    pub fn to_string(&self) -> (out: String)
        ensures
            out@ == self.text(),
    {
        let mut out = String::new();
        match self {
            Target::This => {
                out.append("this");
            },
            Target::Closest(x) => {
                out.append("closest ");
                out.append(x.to_string().as_str());
            },
            Target::Find(x) => {
                out.append("find ");
                out.append(x.to_string().as_str());
            },
            Target::Next(x) => {
                out.append("next ");
                out.append(x.to_string().as_str());
            },
            Target::Previous(x) => {
                out.append("previous ");
                out.append(x.to_string().as_str());
            },
            Target::Selector(x) => {
                out.append(x.to_string().as_str());
            },
        }
        assert(out@ =~= self.text());
        out
    }
}

/// How the response is put into the target.
pub enum Swap {
    Inner,
    Outer,
    BeforeBegin,
    AfterBegin,
    BeforeEnd,
    AfterEnd,
    Delete,
    Nothing,
}

impl Swap {
    /// The fixed word of the strategy.
    pub open spec fn text(&self) -> Seq<char> {
        match self {
            Swap::Inner => "innerHTML"@,
            Swap::Outer => "outerHTML"@,
            Swap::BeforeBegin => "beforebegin"@,
            Swap::AfterBegin => "afterbegin"@,
            Swap::BeforeEnd => "beforeend"@,
            Swap::AfterEnd => "afterend"@,
            Swap::Delete => "delete"@,
            Swap::Nothing => "none"@,
        }
    }

    /// The fixed word of the strategy.
    pub fn to_string(&self) -> (out: String)
        ensures
            out@ == self.text(),
    {
        let word = match self {
            Swap::Inner => "innerHTML",
            Swap::Outer => "outerHTML",
            Swap::BeforeBegin => "beforebegin",
            Swap::AfterBegin => "afterbegin",
            Swap::BeforeEnd => "beforeend",
            Swap::AfterEnd => "afterend",
            Swap::Delete => "delete",
            Swap::Nothing => "none",
        };
        word.to_owned()
    }
}

/// The remote-interaction capability. Every operation writes one attribute
/// and replaces what an earlier call wrote under the same name.
pub trait Htmx: Attributed {
    /// Requests `uri` with the method GET.
    fn get(self, uri: &str) -> (out: Self)
        ensures
            out.attributes() == replace_value(self.attributes(), "hx-get"@, uri@),
    ;

    /// Requests `uri` with the method POST.
    fn post(self, uri: &str) -> (out: Self)
        ensures
            out.attributes() == replace_value(self.attributes(), "hx-post"@, uri@),
    ;

    /// Requests `uri` with the method PUT.
    fn put(self, uri: &str) -> (out: Self)
        ensures
            out.attributes() == replace_value(self.attributes(), "hx-put"@, uri@),
    ;

    /// Requests `uri` with the method PATCH.
    fn patch(self, uri: &str) -> (out: Self)
        ensures
            out.attributes() == replace_value(self.attributes(), "hx-patch"@, uri@),
    ;

    /// Requests `uri` with the method DELETE.
    fn delete(self, uri: &str) -> (out: Self)
        ensures
            out.attributes() == replace_value(self.attributes(), "hx-delete"@, uri@),
    ;

    /// Names the element that receives the response.
    fn target(self, target: Target) -> (out: Self)
        ensures
            out.attributes() == replace_value(self.attributes(), "hx-target"@, target.text()),
    ;

    /// Names the way in which the response is put into the target.
    fn swap(self, swap: Swap) -> (out: Self)
        ensures
            out.attributes() == replace_value(self.attributes(), "hx-swap"@, swap.text()),
    ;

    /// Names the event that sends the request.
    fn trigger(self, trigger: &str) -> (out: Self)
        ensures
            out.attributes() == replace_value(self.attributes(), "hx-trigger"@, trigger@),
    ;
}

/// Of two targets given to a node one after the other, only the later one is
/// left: the node is the same as if the first had never been given, it holds
/// the later target under `hx-target`, and it is rendered to the same text.
pub proof fn last_target_wins(node: Node, first: Target, second: Target)
    ensures
        ({
            let once = node.with_attrs(replace_value(node.attrs, "hx-target"@, first.text()));
            let twice = once.with_attrs(replace_value(once.attrs, "hx-target"@, second.text()));
            let only = node.with_attrs(replace_value(node.attrs, "hx-target"@, second.text()));
            &&& twice == only
            &&& lookup(twice.attrs, "hx-target"@) == Some(second.text())
            &&& twice.text() == only.text()
        }),
{
    replace_value_twice(node.attrs, "hx-target"@, first.text(), second.text());
    replace_value_stores(node.attrs, "hx-target"@, second.text());
}

impl Htmx for Element {
    fn get(self, uri: &str) -> (out: Self)
        ensures
            out@ == self@.with_attrs(replace_value(self@.attrs, "hx-get"@, uri@)),
    {
        self.set_attribute("hx-get", uri)
    }

    fn post(self, uri: &str) -> (out: Self)
        ensures
            out@ == self@.with_attrs(replace_value(self@.attrs, "hx-post"@, uri@)),
    {
        self.set_attribute("hx-post", uri)
    }

    fn put(self, uri: &str) -> (out: Self)
        ensures
            out@ == self@.with_attrs(replace_value(self@.attrs, "hx-put"@, uri@)),
    {
        self.set_attribute("hx-put", uri)
    }

    fn patch(self, uri: &str) -> (out: Self)
        ensures
            out@ == self@.with_attrs(replace_value(self@.attrs, "hx-patch"@, uri@)),
    {
        self.set_attribute("hx-patch", uri)
    }

    fn delete(self, uri: &str) -> (out: Self)
        ensures
            out@ == self@.with_attrs(replace_value(self@.attrs, "hx-delete"@, uri@)),
    {
        self.set_attribute("hx-delete", uri)
    }

    fn target(self, target: Target) -> (out: Self)
        ensures
            out@ == self@.with_attrs(replace_value(self@.attrs, "hx-target"@, target.text())),
    {
        self.set_attribute("hx-target", target.to_string().as_str())
    }

    fn swap(self, swap: Swap) -> (out: Self)
        ensures
            out@ == self@.with_attrs(replace_value(self@.attrs, "hx-swap"@, swap.text())),
    {
        self.set_attribute("hx-swap", swap.to_string().as_str())
    }

    fn trigger(self, trigger: &str) -> (out: Self)
        ensures
            out@ == self@.with_attrs(replace_value(self@.attrs, "hx-trigger"@, trigger@)),
    {
        self.set_attribute("hx-trigger", trigger)
    }
}

} // verus!
