//! The node tree and its rendering.

use crate::attributes::{
    append_value, attrs_on_one_line, attrs_text, attrs_text_on_one_line, distinct_names,
    replace_value, Attr, Attributed, Attributes,
};
use crate::text::{
    indent, indent_line, join, join_push, lines, lines_concat, lines_of_indent,
    lines_of_single_line, push_indented, single_line, single_line_concat,
};
use vstd::prelude::*;

verus! {

/// What an [`Element`] is: a tag, its attributes in the order of their
/// writing, and its children in document order.
pub struct Node {
    pub tag: Seq<char>,
    pub attrs: Seq<Attr>,
    pub children: Seq<Content>,
}

/// What a [`Child`] is: literal text or a nested node.
pub enum Content {
    Text(Seq<char>),
    Node(Node),
}

impl Content {
    /// The text that the child contributes to its parent's body.
    pub open spec fn text(self) -> Seq<char>
        decreases self, 0int,
    {
        match self {
            Content::Text(text) => text,
            Content::Node(node) => node.text(),
        }
    }
}

impl Node {
    /// A node without attributes.
    pub open spec fn plain(tag: Seq<char>, children: Seq<Content>) -> Node {
        Node { tag, attrs: Seq::empty(), children }
    }

    /// The same node with other attributes.
    pub open spec fn with_attrs(self, attrs: Seq<Attr>) -> Node {
        Node { tag: self.tag, attrs, children: self.children }
    }

    /// The same node with more children behind those that it has.
    pub open spec fn with_more(self, children: Seq<Content>) -> Node {
        Node { tag: self.tag, attrs: self.attrs, children: self.children + children }
    }

    /// A node is laid out on one line when it has no children, or one child
    /// that is text. Every other node is laid out as a block.
    pub open spec fn is_inline(self) -> bool {
        self.children.len() == 0 || (self.children.len() == 1 && self.children[0] is Text)
    }

    /// The opening tag: the tag name and the attributes between angle brackets.
    pub open spec fn open_tag(self) -> Seq<char> {
        seq!['<'] + self.tag + attrs_text(self.attrs) + seq!['>']
    }

    /// The closing tag.
    pub open spec fn close_tag(self) -> Seq<char> {
        seq!['<', '/'] + self.tag + seq!['>']
    }

    /// The texts of the children, in document order.
    pub open spec fn child_texts(self) -> Seq<Seq<char>>
        decreases self, 0int,
    {
        Seq::new(
            self.children.len(),
            |i: int|
                if 0 <= i < self.children.len() {
                    self.children[i].text()
                } else {
                    Seq::empty()
                },
        )
    }

    /// What stands between the tags before any indentation: the texts of the
    /// children, one below the other.
    pub open spec fn body(self) -> Seq<char>
        decreases self, 1int,
    {
        join(self.child_texts(), seq!['\n'])
    }

    /// The rendered node. An inline node is its tags around its body. A block
    /// is the opening tag, the body moved right by one level, and the closing
    /// tag, on lines of their own. Nothing is escaped.
    pub open spec fn text(self) -> Seq<char>
        decreases self, 2int,
    {
        if self.is_inline() {
            self.open_tag() + self.body() + self.close_tag()
        } else {
            self.open_tag() + seq!['\n'] + indent(self.body()) + seq!['\n'] + self.close_tag()
        }
    }
}

impl Node {
    /// Whether the tag, the names and the values of the attributes hold no
    /// newline, so that each of the two tags stays on one line.
    pub open spec fn head_on_one_line(self) -> bool {
        single_line(self.tag) && attrs_on_one_line(self.attrs)
    }

    /// With no newline in the tag or in the attributes, the opening and the
    /// closing tag are on one line each.
    pub proof fn tags_on_one_line(self)
        requires
            self.head_on_one_line(),
        ensures
            single_line(self.open_tag()),
            single_line(self.close_tag()),
    {
        attrs_text_on_one_line(self.attrs);
        assert(single_line(seq!['<']));
        assert(single_line(seq!['>']));
        assert(single_line(seq!['<', '/']));
        single_line_concat(seq!['<'], self.tag);
        single_line_concat(seq!['<'] + self.tag, attrs_text(self.attrs));
        single_line_concat(seq!['<'] + self.tag + attrs_text(self.attrs), seq!['>']);
        single_line_concat(seq!['<', '/'], self.tag);
        single_line_concat(seq!['<', '/'] + self.tag, seq!['>']);
    }

    /// The body of a node without children is empty, and the body of a node
    /// with one child is the text of that child.
    pub proof fn body_of_few(self)
        ensures
            self.children.len() == 0 ==> self.body() == Seq::<char>::empty(),
            self.children.len() == 1 ==> self.body() == self.children[0].text(),
    {
    }

    /// A node without children, or with one child that is text, is rendered on
    /// one line: the opening tag, the text if there is any, and the closing
    /// tag, with nothing between them. The line holds a newline only where
    /// the tag, an attribute or the text holds one.
    pub proof fn inline_on_one_line(self)
        requires
            self.is_inline(),
        ensures
            self.children.len() == 0 ==> self.text() == self.open_tag() + self.close_tag(),
            self.children.len() == 1 ==> self.text() == self.open_tag()
                + self.children[0]->Text_0 + self.close_tag(),
            self.head_on_one_line() && single_line(self.body()) ==> single_line(self.text())
                && lines(self.text()) == seq![self.text()],
    {
        self.body_of_few();
        if self.children.len() == 0 {
            assert(self.open_tag() + Seq::<char>::empty() =~= self.open_tag());
        }
        if self.head_on_one_line() && single_line(self.body()) {
            self.tags_on_one_line();
            single_line_concat(self.open_tag(), self.body());
            single_line_concat(self.open_tag() + self.body(), self.close_tag());
            lines_of_single_line(self.text());
        }
    }

    /// Every other node is rendered as a block. With no newline in the tag or
    /// in the attributes, its lines are the opening tag, the lines of the
    /// body, each moved right by exactly two spaces, and the closing tag.
    pub proof fn block_lines(self)
        requires
            !self.is_inline(),
            self.head_on_one_line(),
        ensures
            lines(self.text()) == seq![self.open_tag()] + lines(self.body()).map_values(
                |line: Seq<char>| indent_line(line),
            ) + seq![self.close_tag()],
    {
        self.tags_on_one_line();
        let open = self.open_tag();
        let close = self.close_tag();
        let inner = indent(self.body());
        lines_of_single_line(open);
        lines_of_single_line(close);
        lines_of_indent(self.body());
        lines_concat(open, inner);
        lines_concat(open + seq!['\n'] + inner, close);
    }

    /// A node whose one child is a node is rendered as a block around the
    /// rendered child: each line of the child stands two spaces to the right
    /// of where it stands in the child's own text, between the two tags of
    /// the parent.
    pub proof fn single_child_block(self, child: Node)
        requires
            self.children == seq![Content::Node(child)],
        ensures
            self.text() == self.open_tag() + seq!['\n'] + indent(child.text()) + seq!['\n']
                + self.close_tag(),
            self.head_on_one_line() ==> lines(self.text()) == seq![self.open_tag()] + lines(
                child.text(),
            ).map_values(|line: Seq<char>| indent_line(line)) + seq![self.close_tag()],
    {
        self.body_of_few();
        assert(self.children[0].text() == child.text());
        if self.head_on_one_line() {
            self.block_lines();
        }
    }
}

/// Rendering is a function of the tree: two elements that stand for the same
/// tree are rendered to the same text, and so is one element rendered twice.
pub proof fn same_tree_same_text(a: Element, b: Element)
    requires
        a@ == b@,
    ensures
        a@.text() == b@.text(),
{
}

/// One child of an element.
pub enum Child {
    Text(String),
    Element(Box<Element>),
}

/// A markup element: a tag, attributes, and children.
pub struct Element {
    tag: String,
    attrs: Attributes,
    children: Vec<Child>,
}

impl Child {
    /// What the child is.
    pub open spec fn model(&self) -> Content
        decreases self,
    {
        match self {
            Child::Text(text) => Content::Text(text@),
            Child::Element(element) => Content::Node(element.model()),
        }
    }
}

impl Element {
    /// What the element is.
    pub closed spec fn model(&self) -> Node
        decreases self,
    {
        Node {
            tag: self.tag@,
            attrs: self.attrs@,
            children: Seq::new(
                self.children@.len(),
                |i: int|
                    if 0 <= i < self.children@.len() {
                        self.children@[i].model()
                    } else {
                        Content::Text(Seq::empty())
                    },
            ),
        }
    }
}

impl View for Child {
    type V = Content;

    open spec fn view(&self) -> Content {
        self.model()
    }
}

impl View for Element {
    type V = Node;

    open spec fn view(&self) -> Node {
        self.model()
    }
}

/// What a list of children stands for.
pub open spec fn contents(children: Seq<Child>) -> Seq<Content> {
    Seq::new(children.len(), |i: int| children[i]@)
}

/// What can become the children of an element: one element, a pair of
/// elements, or a list of them.
pub trait Children: Sized {
    /// The children that the value becomes, in document order.
    spec fn contents(&self) -> Seq<Content>;

    /// Turns the value into the list of children.
    fn children(self) -> (out: Vec<Child>)
        ensures
            contents(out@) == self.contents(),
    ;
}

impl Children for Element {
    open spec fn contents(&self) -> Seq<Content> {
        seq![Content::Node(self@)]
    }

    fn children(self) -> (out: Vec<Child>) {
        let mut out: Vec<Child> = Vec::new();
        out.push(Child::Element(Box::new(self)));
        assert(contents(out@) =~= seq![Content::Node(self@)]);
        out
    }
}

impl Children for (Element, Element) {
    open spec fn contents(&self) -> Seq<Content> {
        seq![Content::Node(self.0@), Content::Node(self.1@)]
    }

    fn children(self) -> (out: Vec<Child>) {
        let mut out: Vec<Child> = Vec::new();
        out.push(Child::Element(Box::new(self.0)));
        out.push(Child::Element(Box::new(self.1)));
        assert(contents(out@) =~= seq![Content::Node(self.0@), Content::Node(self.1@)]);
        out
    }
}

impl Children for Vec<Element> {
    open spec fn contents(&self) -> Seq<Content> {
        Seq::new(self@.len(), |i: int| Content::Node(self@[i]@))
    }

    fn children(self) -> (out: Vec<Child>) {
        let ghost elements = self@;
        let mut out: Vec<Child> = Vec::new();
        for element in it: self
            invariant
                it.seq() == elements,
                out@.len() == it.index(),
                forall|j: int| 0 <= j < it.index() ==> (#[trigger] out@[j])@ == Content::Node(elements[j]@),
        {
            out.push(Child::Element(Box::new(element)));
        }
        assert(contents(out@) =~= Seq::new(elements.len(), |i: int| Content::Node(elements[i]@)));
        out
    }
}

impl Element {
    /// The children of the view are the views of the children.
    proof fn view_children(&self)
        ensures
            self@.tag == self.tag@,
            self@.attrs == self.attrs@,
            self@.children == contents(self.children@),
    {
        assert(self@.children =~= contents(self.children@));
    }

    /// An element called `tag` with the given children and no attributes.
    /// There may be no children at all.
    pub fn new<C: Children>(tag: &str, children: C) -> (out: Element)
        ensures
            out@ == Node::plain(tag@, children.contents()),
    {
        let out = Element {
            tag: tag.to_owned(),
            attrs: Attributes::new(),
            children: children.children(),
        };
        proof {
            out.view_children();
        }
        out
    }

    /// An element called `tag` whose one child is the literal `text`.
    pub fn new_content(tag: &str, text: &str) -> (out: Element)
        ensures
            out@ == Node::plain(tag@, seq![Content::Text(text@)]),
    {
        let mut children: Vec<Child> = Vec::new();
        children.push(Child::Text(text.to_owned()));
        let out = Element { tag: tag.to_owned(), attrs: Attributes::new(), children };
        proof {
            out.view_children();
            assert(out@.children =~= seq![Content::Text(text@)]);
        }
        out
    }

    /// The element with `child` behind the children that it has. Any element
    /// may hold any child.
    pub fn attach_child(self, child: Child) -> (out: Element)
        ensures
            out@ == self@.with_more(seq![child@]),
    {
        proof {
            self.view_children();
        }
        let Element { tag, attrs, mut children } = self;
        children.push(child);
        let out = Element { tag, attrs, children };
        proof {
            out.view_children();
            assert(out@.children =~= self@.children + seq![child@]);
        }
        out
    }

    /// The element with `more` behind the children that it has, in order.
    pub fn attach_children<C: Children>(self, more: C) -> (out: Element)
        ensures
            out@ == self@.with_more(more.contents()),
    {
        proof {
            self.view_children();
        }
        let Element { tag, attrs, mut children } = self;
        let mut added = more.children();
        children.append(&mut added);
        let out = Element { tag, attrs, children };
        proof {
            out.view_children();
            assert(out@.children =~= self@.children + more.contents());
        }
        out
    }

    /// Renders the tree below this element to text.
    pub fn render(self) -> (out: String)
        ensures
            out@ == self@.text(),
    {
        let mut out = String::new();
        self.write_to(&mut out);
        out
    }

    /// Appends the rendered element to `out`.
    pub fn write_to(&self, out: &mut String)
        ensures
            final(out)@ == old(out)@ + self@.text(),
        decreases self,
    {
        let ghost start = out@;
        let ghost node = self@;
        proof {
            self.view_children();
            reveal_strlit("<");
            reveal_strlit(">");
            reveal_strlit("</");
            reveal_strlit("\n");
        }
        out.append("<");
        out.append(self.tag.as_str());
        self.attrs.write_to(out);
        out.append(">");
        assert(out@ =~= start + node.open_tag());

        let mut body = String::new();
        let mut i: usize = 0;
        assert(node.child_texts().take(0) =~= Seq::<Seq<char>>::empty());
        while i < self.children.len()
            invariant
                i <= self.children.len(),
                node == self@,
                node.children == contents(self.children@),
                body@ == join(node.child_texts().take(i as int), seq!['\n']),
            decreases self.children.len() - i,
        {
            let ghost before = body@;
            let ghost done = node.child_texts().take(i as int);
            let ghost part = node.child_texts()[i as int];
            if i > 0 {
                proof {
                    reveal_strlit("\n");
                }
                body.append("\n");
            }
            match &self.children[i] {
                Child::Text(text) => {
                    body.append(text.as_str());
                },
                Child::Element(element) => {
                    element.write_to(&mut body);
                },
            }
            proof {
                assert(node.children[i as int] == self.children@[i as int]@);
                assert(node.child_texts().take(i as int + 1) =~= done.push(part));
                if i > 0 {
                    join_push(done, seq!['\n'], part);
                    assert(body@ =~= before + seq!['\n'] + part);
                } else {
                    assert(body@ =~= part);
                }
            }
            i += 1;
        }
        assert(node.child_texts().take(i as int) =~= node.child_texts());

        let inline = self.children.len() == 0 || (self.children.len() == 1 && match &self.children[0] {
            Child::Text(_) => true,
            Child::Element(_) => false,
        });
        assert(inline == node.is_inline());
        if inline {
            out.append(body.as_str());
        } else {
            out.append("\n");
            push_indented(out, body.as_str());
            out.append("\n");
        }
        out.append("</");
        out.append(self.tag.as_str());
        out.append(">");
        proof {
            assert("</"@ =~= seq!['<', '/']);
            assert(">"@ =~= seq!['>']);
            assert("\n"@ =~= seq!['\n']);
            assert(out@ =~= start + node.text());
        }
    }
}

impl Attributed for Element {
    open spec fn attributes(&self) -> Seq<Attr> {
        self@.attrs
    }

    fn set_attribute(self, name: &str, value: &str) -> (out: Element)
        ensures
            out@ == self@.with_attrs(replace_value(self@.attrs, name@, value@)),
            distinct_names(out@.attrs),
    {
        proof {
            self.view_children();
        }
        let Element { tag, attrs, children } = self;
        let out = Element { tag, attrs: attrs.set(name, value), children };
        proof {
            out.view_children();
        }
        out
    }

    fn append_attribute(self, name: &str, more: &str) -> (out: Element)
        ensures
            out@ == self@.with_attrs(append_value(self@.attrs, name@, more@)),
            distinct_names(out@.attrs),
    {
        proof {
            self.view_children();
        }
        let Element { tag, attrs, children } = self;
        let out = Element { tag, attrs: attrs.append(name, more), children };
        proof {
            out.view_children();
        }
        out
    }
}

} // verus!
