//! The attributes of a node: named strings, one per name, kept in the order
//! in which their names first appeared.

use crate::text::{join, join_push, single_line, single_line_concat};
use vstd::prelude::*;

verus! {

/// One attribute as it is written into an opening tag.
pub struct Attr {
    pub name: Seq<char>,
    pub value: Seq<char>,
}

impl Attr {
    /// The attribute as it is written: the name, an equals sign, and the value
    /// between double quotes, with nothing escaped.
    pub open spec fn text(self) -> Seq<char> {
        self.name + seq!['=', '"'] + self.value + seq!['"']
    }
}

/// The attributes as they are written after the tag name: each one preceded
/// by a single space, in order.
pub open spec fn attrs_text(attrs: Seq<Attr>) -> Seq<char> {
    if attrs.len() == 0 {
        Seq::empty()
    } else {
        seq![' '] + join(attrs.map_values(|a: Attr| a.text()), seq![' '])
    }
}

/// One more attribute is written behind the others, after a space.
pub proof fn attrs_text_push(attrs: Seq<Attr>, last: Attr)
    ensures
        attrs_text(attrs.push(last)) == attrs_text(attrs) + seq![' '] + last.text(),
{
    let texts = attrs.map_values(|a: Attr| a.text());
    let grown = attrs.push(last).map_values(|a: Attr| a.text());
    assert(grown =~= texts.push(last.text()));
    if attrs.len() == 0 {
        assert(attrs_text(attrs.push(last)) =~= attrs_text(attrs) + seq![' '] + last.text());
    } else {
        join_push(texts, seq![' '], last.text());
        assert(attrs_text(attrs.push(last)) =~= attrs_text(attrs) + seq![' '] + last.text());
    }
}

/// Whether neither a name nor a value holds a newline.
pub open spec fn attrs_on_one_line(attrs: Seq<Attr>) -> bool {
    forall|i: int|
        0 <= i < attrs.len() ==> single_line((#[trigger] attrs[i]).name) && single_line(
            attrs[i].value,
        )
}

/// Attributes without newlines are written on one line.
pub proof fn attrs_text_on_one_line(attrs: Seq<Attr>)
    requires
        attrs_on_one_line(attrs),
    ensures
        single_line(attrs_text(attrs)),
    decreases attrs.len(),
{
    if attrs.len() == 0 {
        assert(single_line(Seq::<char>::empty()));
    } else {
        let before = attrs.drop_last();
        let last = attrs.last();
        assert(attrs =~= before.push(last));
        assert(attrs_on_one_line(before)) by {
            assert forall|i: int| 0 <= i < before.len() implies single_line(
                (#[trigger] before[i]).name,
            ) && single_line(before[i].value) by {
                assert(before[i] == attrs[i]);
            }
        }
        attrs_text_on_one_line(before);
        attrs_text_push(before, last);
        assert(single_line(last.name) && single_line(last.value)) by {
            assert(last == attrs[attrs.len() - 1]);
        }
        assert(single_line(seq![' ']));
        assert(single_line(seq!['=', '"']));
        assert(single_line(seq!['"']));
        single_line_concat(last.name, seq!['=', '"']);
        single_line_concat(last.name + seq!['=', '"'], last.value);
        single_line_concat(last.name + seq!['=', '"'] + last.value, seq!['"']);
        single_line_concat(attrs_text(before), seq![' ']);
        single_line_concat(attrs_text(before) + seq![' '], last.text());
    }
}

/// Whether some attribute of `attrs` is called `name`.
pub open spec fn has_name(attrs: Seq<Attr>, name: Seq<char>) -> bool {
    exists|i: int| 0 <= i < attrs.len() && (#[trigger] attrs[i]).name == name
}

/// Whether `i` is the first position at which `name` stands in `attrs`.
pub open spec fn is_first(attrs: Seq<Attr>, name: Seq<char>, i: int) -> bool {
    &&& 0 <= i < attrs.len()
    &&& attrs[i].name == name
    &&& forall|j: int| 0 <= j < i ==> (#[trigger] attrs[j]).name != name
}

/// The first position at which `name` stands in `attrs`, where it stands
/// anywhere.
pub open spec fn index_of(attrs: Seq<Attr>, name: Seq<char>) -> int {
    choose|i: int| is_first(attrs, name, i)
}

/// No name occurs twice.
pub open spec fn distinct_names(attrs: Seq<Attr>) -> bool {
    forall|i: int, j: int|
        0 <= i < j < attrs.len() ==> (#[trigger] attrs[i]).name != (#[trigger] attrs[j]).name
}

/// The value stored under `name`.
pub open spec fn lookup(attrs: Seq<Attr>, name: Seq<char>) -> Option<Seq<char>> {
    if has_name(attrs, name) {
        Some(attrs[index_of(attrs, name)].value)
    } else {
        None
    }
}

/// `attrs` after a single-slot write: the value under `name` is replaced where
/// the name is present, and a new attribute is added at the end where it is not.
pub open spec fn replace_value(attrs: Seq<Attr>, name: Seq<char>, value: Seq<char>) -> Seq<Attr> {
    if has_name(attrs, name) {
        attrs.update(index_of(attrs, name), Attr { name, value })
    } else {
        attrs.push(Attr { name, value })
    }
}

/// `attrs` after an accumulating write: `more` is appended to the value under
/// `name` where the name is present, and becomes the value of a new attribute
/// at the end where it is not.
pub open spec fn append_value(attrs: Seq<Attr>, name: Seq<char>, more: Seq<char>) -> Seq<Attr> {
    if has_name(attrs, name) {
        let i = index_of(attrs, name);
        attrs.update(i, Attr { name, value: attrs[i].value + more })
    } else {
        attrs.push(Attr { name, value: more })
    }
}

/// A name that stands at `at` has a first position, at `at` or before it.
proof fn first_at_or_before(attrs: Seq<Attr>, name: Seq<char>, at: int) -> (i: int)
    requires
        0 <= at < attrs.len(),
        attrs[at].name == name,
    ensures
        is_first(attrs, name, i),
        i <= at,
    decreases at,
{
    if exists|j: int| 0 <= j < at && (#[trigger] attrs[j]).name == name {
        let j = choose|j: int| 0 <= j < at && (#[trigger] attrs[j]).name == name;
        first_at_or_before(attrs, name, j)
    } else {
        at
    }
}

/// A name that is present has a first position, and `index_of` is that
/// position.
pub proof fn index_of_present(attrs: Seq<Attr>, name: Seq<char>)
    requires
        has_name(attrs, name),
    ensures
        is_first(attrs, name, index_of(attrs, name)),
{
    let at = choose|i: int| 0 <= i < attrs.len() && (#[trigger] attrs[i]).name == name;
    let first = first_at_or_before(attrs, name, at);
}

/// There is one first position only.
pub proof fn index_of_first(attrs: Seq<Attr>, name: Seq<char>, i: int)
    requires
        is_first(attrs, name, i),
    ensures
        has_name(attrs, name),
        index_of(attrs, name) == i,
{
    let j = index_of(attrs, name);
    if j < i {
        assert(attrs[j].name != name);
    } else if i < j {
        assert(attrs[i].name != name);
    }
}

/// What `replace_value` and `append_value` have in common: `after` is `before`
/// with another value at the first position of `name`, or with one more
/// attribute called `name` at the end where the name was absent.
spec fn rewritten(before: Seq<Attr>, after: Seq<Attr>, name: Seq<char>) -> bool {
    if has_name(before, name) {
        &&& after.len() == before.len()
        &&& forall|j: int|
            0 <= j < before.len() && j != index_of(before, name) ==> (#[trigger] after[j])
                == before[j]
        &&& after[index_of(before, name)].name == name
    } else {
        &&& after.len() == before.len() + 1
        &&& forall|j: int| 0 <= j < before.len() ==> (#[trigger] after[j]) == before[j]
        &&& after[before.len() as int].name == name
    }
}

/// A rewrite under `name` keeps the place of every name.
proof fn rewritten_keeps_names(before: Seq<Attr>, after: Seq<Attr>, name: Seq<char>)
    requires
        rewritten(before, after, name),
    ensures
        forall|j: int| 0 <= j < before.len() ==> (#[trigger] after[j]).name == before[j].name,
        has_name(after, name),
        index_of(after, name) == if has_name(before, name) {
            index_of(before, name)
        } else {
            before.len() as int
        },
{
    if has_name(before, name) {
        index_of_present(before, name);
        let i = index_of(before, name);
        assert forall|j: int| 0 <= j < before.len() implies (#[trigger] after[j]).name
            == before[j].name by {
            if j != i {
                assert(after[j] == before[j]);
            }
        }
        index_of_first(after, name, i);
    } else {
        assert forall|j: int| 0 <= j < before.len() implies (#[trigger] after[j]).name != name by {
            assert(after[j] == before[j]);
        }
        index_of_first(after, name, before.len() as int);
    }
}

/// A rewrite under `name` leaves the value under every other name as it was.
proof fn rewritten_keeps_others(
    before: Seq<Attr>,
    after: Seq<Attr>,
    name: Seq<char>,
    other: Seq<char>,
)
    requires
        rewritten(before, after, name),
        other != name,
    ensures
        lookup(after, other) == lookup(before, other),
{
    rewritten_keeps_names(before, after, name);
    if has_name(before, other) {
        index_of_present(before, other);
        let i = index_of(before, other);
        assert(after[i] == before[i]);
        assert forall|j: int| 0 <= j < i implies (#[trigger] after[j]).name != other by {
            assert(before[j].name != other);
        }
        index_of_first(after, other, i);
    } else if has_name(after, other) {
        index_of_present(after, other);
        let i = index_of(after, other);
        assert(i < before.len());
        assert(before[i].name == other);
    }
}

/// A rewrite under `name` keeps distinct names distinct.
proof fn rewritten_keeps_distinct(before: Seq<Attr>, after: Seq<Attr>, name: Seq<char>)
    requires
        rewritten(before, after, name),
        distinct_names(before),
    ensures
        distinct_names(after),
{
    rewritten_keeps_names(before, after, name);
    assert forall|i: int, j: int| 0 <= i < j < after.len() implies (#[trigger] after[i]).name != (
    #[trigger] after[j]).name by {
        if j < before.len() {
            assert(before[i].name != before[j].name);
        } else {
            assert(before[i].name != name);
        }
    }
}

/// A single-slot write stores the value under the name, leaves every other
/// name as it was, and keeps distinct names distinct.
pub proof fn replace_value_stores(attrs: Seq<Attr>, name: Seq<char>, value: Seq<char>)
    ensures
        lookup(replace_value(attrs, name, value), name) == Some(value),
        forall|other: Seq<char>|
            other != name ==> lookup(replace_value(attrs, name, value), other) == lookup(
                attrs,
                other,
            ),
        distinct_names(attrs) ==> distinct_names(replace_value(attrs, name, value)),
{
    let after = replace_value(attrs, name, value);
    if has_name(attrs, name) {
        index_of_present(attrs, name);
    }
    assert(rewritten(attrs, after, name));
    rewritten_keeps_names(attrs, after, name);
    assert forall|other: Seq<char>| other != name implies lookup(after, other) == lookup(
        attrs,
        other,
    ) by {
        rewritten_keeps_others(attrs, after, name, other);
    }
    if distinct_names(attrs) {
        rewritten_keeps_distinct(attrs, after, name);
    }
}

/// An accumulating write appends to the value under the name, leaves every
/// other name as it was, and keeps distinct names distinct.
pub proof fn append_value_appends(attrs: Seq<Attr>, name: Seq<char>, more: Seq<char>)
    ensures
        lookup(append_value(attrs, name, more), name) == Some(
            match lookup(attrs, name) {
                Some(value) => value + more,
                None => more,
            },
        ),
        forall|other: Seq<char>|
            other != name ==> lookup(append_value(attrs, name, more), other) == lookup(
                attrs,
                other,
            ),
        distinct_names(attrs) ==> distinct_names(append_value(attrs, name, more)),
{
    let after = append_value(attrs, name, more);
    if has_name(attrs, name) {
        index_of_present(attrs, name);
    }
    assert(rewritten(attrs, after, name));
    rewritten_keeps_names(attrs, after, name);
    assert forall|other: Seq<char>| other != name implies lookup(after, other) == lookup(
        attrs,
        other,
    ) by {
        rewritten_keeps_others(attrs, after, name, other);
    }
    if distinct_names(attrs) {
        rewritten_keeps_distinct(attrs, after, name);
    }
}

/// Single-slot law: of two writes under one name, only the later one is left.
pub proof fn replace_value_twice(
    attrs: Seq<Attr>,
    name: Seq<char>,
    first: Seq<char>,
    second: Seq<char>,
)
    ensures
        replace_value(replace_value(attrs, name, first), name, second) == replace_value(
            attrs,
            name,
            second,
        ),
{
    let once = replace_value(attrs, name, first);
    if has_name(attrs, name) {
        index_of_present(attrs, name);
    }
    assert(rewritten(attrs, once, name));
    rewritten_keeps_names(attrs, once, name);
    assert(replace_value(once, name, second) =~= replace_value(attrs, name, second));
}

/// Accumulating law: two writes under one name leave the first text followed
/// by the second, in the order of the calls.
pub proof fn append_value_twice(
    attrs: Seq<Attr>,
    name: Seq<char>,
    first: Seq<char>,
    second: Seq<char>,
)
    ensures
        append_value(append_value(attrs, name, first), name, second) == append_value(
            attrs,
            name,
            first + second,
        ),
{
    let once = append_value(attrs, name, first);
    if has_name(attrs, name) {
        index_of_present(attrs, name);
        let i = index_of(attrs, name);
        assert((attrs[i].value + first) + second =~= attrs[i].value + (first + second));
    }
    assert(rewritten(attrs, once, name));
    rewritten_keeps_names(attrs, once, name);
    assert(append_value(once, name, second) =~= append_value(attrs, name, first + second));
}

/// The contract of a value that has attributes. Capabilities add their
/// attributes through it and need to know nothing else of the value.
pub trait Attributed: Sized {
    /// The attributes, in the order in which they are written.
    spec fn attributes(&self) -> Seq<Attr>;

    /// Single-slot write: the value under `name` becomes `value`.
    fn set_attribute(self, name: &str, value: &str) -> (out: Self)
        ensures
            out.attributes() == replace_value(self.attributes(), name@, value@),
    ;

    /// Accumulating write: `more` is appended to the value under `name`.
    fn append_attribute(self, name: &str, more: &str) -> (out: Self)
        ensures
            out.attributes() == append_value(self.attributes(), name@, more@),
    ;
}

/// The attributes of one node. No name occurs twice.
pub struct Attributes {
    entries: Vec<(String, String)>,
}

/// The attributes that a list of stored pairs stands for.
spec fn attrs_of(entries: Seq<(String, String)>) -> Seq<Attr> {
    Seq::new(entries.len(), |i: int| Attr { name: entries[i].0@, value: entries[i].1@ })
}

impl View for Attributes {
    type V = Seq<Attr>;

    closed spec fn view(&self) -> Seq<Attr> {
        attrs_of(self.entries@)
    }
}

impl Attributes {
    #[verifier::type_invariant]
    spec fn well_formed(&self) -> bool {
        distinct_names(self@)
    }

    /// No attributes.
    pub fn new() -> (out: Self)
        ensures
            out@ == Seq::<Attr>::empty(),
    {
        let out = Attributes { entries: Vec::new() };
        assert(out@ =~= Seq::<Attr>::empty());
        out
    }

    /// The position of `name`, if it is present.
    fn position(&self, name: &String) -> (out: Option<usize>)
        ensures
            out is Some == has_name(self@, name@),
            out matches Some(i) ==> i as int == index_of(self@, name@) && i < self@.len(),
    {
        let mut i: usize = 0;
        while i < self.entries.len()
            invariant
                i <= self.entries.len(),
                self@.len() == self.entries@.len(),
                forall|j: int| 0 <= j < i ==> (#[trigger] self@[j]).name != name@,
            decreases self.entries.len() - i,
        {
            if self.entries[i].0 == *name {
                proof {
                    index_of_first(self@, name@, i as int);
                }
                return Some(i);
            }
            i += 1;
        }
        None
    }

    /// Appends the attributes to `out` as they are written after the tag name.
    pub fn write_to(&self, out: &mut String)
        ensures
            final(out)@ == old(out)@ + attrs_text(self@),
    {
        let ghost start = out@;
        let mut i: usize = 0;
        assert(self@.take(0) =~= Seq::<Attr>::empty());
        assert(out@ =~= start + attrs_text(self@.take(0)));
        while i < self.entries.len()
            invariant
                i <= self.entries.len(),
                self.entries@.len() == self@.len(),
                out@ == start + attrs_text(self@.take(i as int)),
            decreases self.entries.len() - i,
        {
            let ghost before = out@;
            out.append(" ");
            out.append(self.entries[i].0.as_str());
            out.append("=\"");
            out.append(self.entries[i].1.as_str());
            out.append("\"");
            proof {
                reveal_strlit(" ");
                reveal_strlit("=\"");
                reveal_strlit("\"");
                assert(" "@ =~= seq![' ']);
                assert("=\""@ =~= seq!['=', '"']);
                assert("\""@ =~= seq!['"']);
                attrs_text_push(self@.take(i as int), self@[i as int]);
                assert(self@.take(i as int + 1) =~= self@.take(i as int).push(self@[i as int]));
                assert(out@ =~= before + seq![' '] + self@[i as int].text());
            }
            i += 1;
        }
        assert(self@.take(self@.len() as int) =~= self@);
    }

    /// Single-slot write: the value under `name` becomes `value`.
    pub fn set(self, name: &str, value: &str) -> (out: Self)
        ensures
            out@ == replace_value(self@, name@, value@),
            distinct_names(out@),
    {
        proof {
            use_type_invariant(&self);
            replace_value_stores(self@, name@, value@);
        }
        let key = name.to_owned();
        let found = self.position(&key);
        let ghost before = self@;
        let mut entries = self.entries;
        match found {
            Some(i) => {
                entries[i] = (key, value.to_owned());
            },
            None => {
                entries.push((key, value.to_owned()));
            },
        }
        assert(attrs_of(entries@) =~= replace_value(before, name@, value@));
        Attributes { entries }
    }

    /// Accumulating write: `more` is appended to the value under `name`.
    pub fn append(self, name: &str, more: &str) -> (out: Self)
        ensures
            out@ == append_value(self@, name@, more@),
            distinct_names(out@),
    {
        proof {
            use_type_invariant(&self);
            append_value_appends(self@, name@, more@);
        }
        let key = name.to_owned();
        let found = self.position(&key);
        let ghost before = self@;
        let mut entries = self.entries;
        match found {
            Some(i) => {
                let mut value = entries[i].1.clone();
                value.append(more);
                entries[i] = (key, value);
            },
            None => {
                entries.push((key, more.to_owned()));
            },
        }
        assert(attrs_of(entries@) =~= append_value(before, name@, more@));
        Attributes { entries }
    }
}

} // verus!
