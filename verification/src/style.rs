//! Layout styling: lengths, the four edges of a box, and the capability that
//! writes them into the `style` attribute of a node.

use crate::attributes::{
    append_value, append_value_appends, append_value_twice, lookup, Attr, Attributed,
};
use crate::decimal::{numeral, push_numeral, Decimal};
use crate::node::Element;
use vstd::prelude::*;

verus! {

/// A length in pixels.
pub fn px(length: u32) -> (out: Length)
    ensures
        out == Length::Px(length),
{
    Length::Px(length)
}

/// A length in root-em units.
pub fn rem(length: Decimal) -> (out: Length)
    ensures
        out == Length::Rem(length),
{
    Length::Rem(length)
}

/// A length with its unit.
#[derive(Clone, Copy, Debug)]
pub enum Length {
    Px(u32),
    Rem(Decimal),
}

impl Length {
    /// The length as it is written: the number, then the unit.
    pub open spec fn text(self) -> Seq<char> {
        match self {
            Length::Px(x) => numeral(x as nat) + seq!['p', 'x'],
            Length::Rem(x) => x.text() + seq!['r', 'e', 'm'],
        }
    }

    /// Appends the length to `out` as it is written.
    pub fn write_to(&self, out: &mut String)
        ensures
            final(out)@ == old(out)@ + self.text(),
    {
        let ghost start = out@;
        proof {
            reveal_strlit("px");
            reveal_strlit("rem");
        }
        match self {
            Length::Px(x) => {
                push_numeral(out, *x as u128);
                out.append("px");
            },
            Length::Rem(x) => {
                x.write_to(out);
                out.append("rem");
            },
        }
        assert(out@ =~= start + self.text());
    }

    /// The length as it is written.
    pub fn to_string(&self) -> (out: String)
        ensures
            out@ == self.text(),
    {
        let mut out = String::new();
        self.write_to(&mut out);
        out
    }
}

/// One value for each edge of a box.
pub struct Edges<T> {
    top: T,
    bottom: T,
    left: T,
    right: T,
}

impl<T> Edges<T> {
    /// The value of the top edge.
    pub closed spec fn top_edge(self) -> T {
        self.top
    }

    /// The value of the right edge.
    pub closed spec fn right_edge(self) -> T {
        self.right
    }

    /// The value of the bottom edge.
    pub closed spec fn bottom_edge(self) -> T {
        self.bottom
    }

    /// The value of the left edge.
    pub closed spec fn left_edge(self) -> T {
        self.left
    }

    /// Whether all four edges have the values given, in the order top, right,
    /// bottom, left.
    pub open spec fn has_edges(self, top: T, right: T, bottom: T, left: T) -> bool {
        &&& self.top_edge() == top
        &&& self.right_edge() == right
        &&& self.bottom_edge() == bottom
        &&& self.left_edge() == left
    }
}

impl<T: Copy> Edges<T> {
    /// The same value on all four edges.
    pub fn all(data: T) -> (out: Self)
        ensures
            out.has_edges(data, data, data, data),
    {
        Self { top: data, bottom: data, left: data, right: data }
    }

    /// The same edges with another top.
    pub fn top(self, top: T) -> (out: Self)
        ensures
            out.has_edges(top, self.right_edge(), self.bottom_edge(), self.left_edge()),
    {
        Self { top, bottom: self.bottom, left: self.left, right: self.right }
    }

    /// The same edges with another bottom.
    pub fn bottom(self, bottom: T) -> (out: Self)
        ensures
            out.has_edges(self.top_edge(), self.right_edge(), bottom, self.left_edge()),
    {
        Self { top: self.top, bottom, left: self.left, right: self.right }
    }

    /// The same edges with another left.
    pub fn left(self, left: T) -> (out: Self)
        ensures
            out.has_edges(self.top_edge(), self.right_edge(), self.bottom_edge(), left),
    {
        Self { top: self.top, bottom: self.bottom, left, right: self.right }
    }

    /// The same edges with another right.
    pub fn right(self, right: T) -> (out: Self)
        ensures
            out.has_edges(self.top_edge(), right, self.bottom_edge(), self.left_edge()),
    {
        Self { top: self.top, bottom: self.bottom, left: self.left, right }
    }
}

impl Edges<Length> {
    /// The edges as they are written: top, right, bottom, left, with a space
    /// between each two. This is the order of the style sheet, whatever the
    /// order in which the edges were set.
    pub open spec fn text(self) -> Seq<char> {
        self.top_edge().text() + seq![' '] + self.right_edge().text() + seq![' ']
            + self.bottom_edge().text() + seq![' '] + self.left_edge().text()
    }

    /// Appends the edges to `out` as they are written.
    pub fn write_to(&self, out: &mut String)
        ensures
            final(out)@ == old(out)@ + self.text(),
    {
        let ghost start = out@;
        proof {
            reveal_strlit(" ");
        }
        self.top.write_to(out);
        out.append(" ");
        self.right.write_to(out);
        out.append(" ");
        self.bottom.write_to(out);
        out.append(" ");
        self.left.write_to(out);
        assert(" "@ =~= seq![' ']);
        assert(out@ =~= start + self.text());
    }

    /// The edges as they are written.
    pub fn to_string(&self) -> (out: String)
        ensures
            out@ == self.text(),
    {
        let mut out = String::new();
        self.write_to(&mut out);
        out
    }
}

/// One declaration of the `style` attribute.
pub enum Style {
    Padding(Edges<Length>),
    Margin(Edges<Length>),
    Border(Edges<Length>),
}

impl Style {
    /// The name of the property that the declaration sets.
    pub open spec fn property(self) -> Seq<char> {
        match self {
            Style::Padding(_) => "padding"@,
            Style::Margin(_) => "margin"@,
            Style::Border(_) => "border"@,
        }
    }

    /// The edges that the declaration gives to the property.
    pub open spec fn edges(self) -> Edges<Length> {
        match self {
            Style::Padding(edges) => edges,
            Style::Margin(edges) => edges,
            Style::Border(edges) => edges,
        }
    }

    /// The declaration as it is written: the property, a colon and a space,
    /// the edges, and the semicolon that ends it.
    pub open spec fn text(self) -> Seq<char> {
        self.property() + seq![':', ' '] + self.edges().text() + seq![';']
    }

    /// The declaration as it is written.
    pub fn to_string(&self) -> (out: String)
        ensures
            out@ == self.text(),
    {
        let mut out = String::new();
        proof {
            reveal_strlit(": ");
            reveal_strlit(";");
        }
        match self {
            Style::Padding(edges) => {
                out.append("padding");
                out.append(": ");
                edges.write_to(&mut out);
            },
            Style::Margin(edges) => {
                out.append("margin");
                out.append(": ");
                edges.write_to(&mut out);
            },
            Style::Border(edges) => {
                out.append("border");
                out.append(": ");
                edges.write_to(&mut out);
            },
        }
        out.append(";");
        assert(": "@ =~= seq![':', ' ']);
        assert(";"@ =~= seq![';']);
        assert(out@ =~= self.text());
        out
    }
}

/// The styling capability. Every declaration is appended to the value of the
/// `style` attribute, in the order of the calls; none replaces another.
pub trait Stylable: Attributed {
    /// Appends the declaration `style`.
    fn style(self, style: Style) -> (out: Self)
        ensures
            out.attributes() == append_value(self.attributes(), "style"@, style.text()),
    ;

    /// Appends a declaration of the padding.
    fn padding(self, padding: Edges<Length>) -> (out: Self)
        ensures
            out.attributes() == append_value(
                self.attributes(),
                "style"@,
                Style::Padding(padding).text(),
            ),
    {
        self.style(Style::Padding(padding))
    }

    /// Appends a declaration of the margin.
    fn margin(self, margin: Edges<Length>) -> (out: Self)
        ensures
            out.attributes() == append_value(self.attributes(), "style"@, Style::Margin(margin).text()),
    {
        self.style(Style::Margin(margin))
    }

    /// Appends a declaration of the border.
    fn border(self, border: Edges<Length>) -> (out: Self)
        ensures
            out.attributes() == append_value(self.attributes(), "style"@, Style::Border(border).text()),
    {
        self.style(Style::Border(border))
    }
}

/// Two declarations given one after the other are both kept, in the order of
/// the calls: under `style` stands what stood there before, then the first
/// declaration, then the second, with nothing between them.
pub proof fn styles_accumulate(attrs: Seq<Attr>, first: Style, second: Style)
    ensures
        ({
            let once = append_value(attrs, "style"@, first.text());
            let twice = append_value(once, "style"@, second.text());
            let before = match lookup(attrs, "style"@) {
                Some(value) => value,
                None => Seq::empty(),
            };
            &&& twice == append_value(attrs, "style"@, first.text() + second.text())
            &&& lookup(twice, "style"@) == Some(before + first.text() + second.text())
        }),
{
    let both = first.text() + second.text();
    append_value_twice(attrs, "style"@, first.text(), second.text());
    append_value_appends(attrs, "style"@, both);
    match lookup(attrs, "style"@) {
        Some(value) => {
            assert(value + both =~= value + first.text() + second.text());
        },
        None => {
            assert(both =~= Seq::<char>::empty() + first.text() + second.text());
        },
    }
}

impl Stylable for Element {
    fn style(self, style: Style) -> (out: Self)
        ensures
            out@ == self@.with_attrs(append_value(self@.attrs, "style"@, style.text())),
    {
        let declaration = style.to_string();
        self.append_attribute("style", declaration.as_str())
    }

    fn padding(self, padding: Edges<Length>) -> (out: Self)
        ensures
            out@ == self@.with_attrs(
                append_value(self@.attrs, "style"@, Style::Padding(padding).text()),
            ),
    {
        self.style(Style::Padding(padding))
    }

    fn margin(self, margin: Edges<Length>) -> (out: Self)
        ensures
            out@ == self@.with_attrs(append_value(self@.attrs, "style"@, Style::Margin(margin).text())),
    {
        self.style(Style::Margin(margin))
    }

    fn border(self, border: Edges<Length>) -> (out: Self)
        ensures
            out@ == self@.with_attrs(append_value(self@.attrs, "style"@, Style::Border(border).text())),
    {
        self.style(Style::Border(border))
    }
}

} // verus!
