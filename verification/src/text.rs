//! Text as sequences of characters: joining, lines, and indentation.

use vstd::prelude::*;

verus! {

/// The parts of `parts` in order, with `sep` between each two neighbours.
pub open spec fn join(parts: Seq<Seq<char>>, sep: Seq<char>) -> Seq<char>
    decreases parts.len(),
{
    if parts.len() == 0 {
        Seq::empty()
    } else if parts.len() == 1 {
        parts[0]
    } else {
        join(parts.drop_last(), sep) + sep + parts.last()
    }
}

/// The lines of `s`: the pieces between its newline characters. There is always
/// at least one line, and a trailing newline is followed by an empty line.
pub open spec fn lines(s: Seq<char>) -> Seq<Seq<char>>
    decreases s.len(),
{
    if s.len() == 0 {
        seq![Seq::empty()]
    } else {
        let before = lines(s.drop_last());
        if s.last() == '\n' {
            before.push(Seq::empty())
        } else {
            before.drop_last().push(before.last().push(s.last()))
        }
    }
}

/// One line moved right by one level, which is two spaces.
pub open spec fn indent_line(line: Seq<char>) -> Seq<char> {
    seq![' ', ' '] + line
}

/// `s` with each of its lines moved right by one level.
pub open spec fn indent(s: Seq<char>) -> Seq<char> {
    join(lines(s).map_values(|line: Seq<char>| indent_line(line)), seq!['\n'])
}

/// Whether `s` stays on one line.
pub open spec fn single_line(s: Seq<char>) -> bool {
    !s.contains('\n')
}

/// A text always has a first line.
pub proof fn lines_nonempty(s: Seq<char>)
    ensures
        lines(s).len() >= 1,
    decreases s.len(),
{
    if s.len() > 0 {
        lines_nonempty(s.drop_last());
    }
}

/// Appending one more part to a non-empty list appends the separator and the part.
pub proof fn join_push(parts: Seq<Seq<char>>, sep: Seq<char>, part: Seq<char>)
    requires
        parts.len() >= 1,
    ensures
        join(parts.push(part), sep) == join(parts, sep) + sep + part,
{
    assert(parts.push(part).drop_last() =~= parts);
}

/// A character appended to the last part is appended to the joined text.
pub proof fn join_extend_last(parts: Seq<Seq<char>>, sep: Seq<char>, c: char)
    requires
        parts.len() >= 1,
    ensures
        join(parts.drop_last().push(parts.last().push(c)), sep) == join(parts, sep).push(c),
{
    let grown = parts.drop_last().push(parts.last().push(c));
    assert(grown.drop_last() =~= parts.drop_last());
    if parts.len() == 1 {
        assert(join(grown, sep) == parts.last().push(c));
    } else {
        assert(join(grown, sep) =~= join(parts, sep).push(c));
    }
}

/// How the lines change when one character is appended.
pub proof fn lines_push(s: Seq<char>, c: char)
    ensures
        lines(s).len() >= 1,
        c == '\n' ==> lines(s.push(c)) == lines(s).push(Seq::empty()),
        c != '\n' ==> lines(s.push(c)) == lines(s).drop_last().push(lines(s).last().push(c)),
{
    lines_nonempty(s);
    assert(s.push(c).drop_last() =~= s);
}

/// The indentation of the empty text is the bare indent of its one empty line.
pub proof fn indent_empty()
    ensures
        indent(Seq::empty()) == seq![' ', ' '],
{
    let mapped = lines(Seq::empty()).map_values(|line: Seq<char>| indent_line(line));
    assert(mapped.len() == 1);
    assert(mapped[0] =~= seq![' ', ' ']);
}

/// How the indented text changes when one character is appended: a newline
/// opens a fresh indented line, any other character is appended as it is.
pub proof fn indent_push(s: Seq<char>, c: char)
    ensures
        c == '\n' ==> indent(s.push(c)) == indent(s) + seq!['\n', ' ', ' '],
        c != '\n' ==> indent(s.push(c)) == indent(s).push(c),
{
    lines_push(s, c);
    let shift = |line: Seq<char>| indent_line(line);
    let old_lines = lines(s);
    let old_shifted = old_lines.map_values(shift);
    let new_shifted = lines(s.push(c)).map_values(shift);
    let sep = seq!['\n'];
    if c == '\n' {
        assert(new_shifted =~= old_shifted.push(indent_line(Seq::empty())));
        join_push(old_shifted, sep, indent_line(Seq::empty()));
        assert(sep + indent_line(Seq::empty()) =~= seq!['\n', ' ', ' ']);
        assert(join(old_shifted, sep) + sep + indent_line(Seq::empty()) =~= join(old_shifted, sep)
            + seq!['\n', ' ', ' ']);
    } else {
        assert(indent_line(old_lines.last().push(c)) =~= indent_line(old_lines.last()).push(c));
        assert(new_shifted =~= old_shifted.drop_last().push(old_shifted.last().push(c)));
        join_extend_last(old_shifted, sep, c);
    }
}

/// A text is on one line exactly when its parts are.
pub proof fn single_line_concat(a: Seq<char>, b: Seq<char>)
    ensures
        single_line(a + b) == (single_line(a) && single_line(b)),
{
    let whole = a + b;
    if a.contains('\n') {
        let i = choose|i: int| 0 <= i < a.len() && a[i] == '\n';
        assert(whole[i] == '\n');
    }
    if b.contains('\n') {
        let i = choose|i: int| 0 <= i < b.len() && b[i] == '\n';
        assert(whole[a.len() + i] == '\n');
    }
    if whole.contains('\n') {
        let i = choose|i: int| 0 <= i < whole.len() && whole[i] == '\n';
        if i < a.len() {
            assert(a[i] == '\n');
        } else {
            assert(b[i - a.len()] == '\n');
        }
    }
}

/// A text without a newline is its own only line.
pub proof fn lines_of_single_line(s: Seq<char>)
    requires
        single_line(s),
    ensures
        lines(s) == seq![s],
    decreases s.len(),
{
    if s.len() == 0 {
        assert(s =~= Seq::<char>::empty());
    } else {
        let before = s.drop_last();
        assert(s =~= before.push(s.last()));
        single_line_concat(before, seq![s.last()]);
        assert(before + seq![s.last()] =~= s);
        lines_of_single_line(before);
        assert(s.last() != '\n') by {
            assert(s[s.len() - 1] == s.last());
        }
        assert(lines(s) =~= seq![s]);
    }
}

/// No line holds a newline.
pub proof fn lines_are_single(s: Seq<char>)
    ensures
        forall|i: int| 0 <= i < lines(s).len() ==> single_line(#[trigger] lines(s)[i]),
    decreases s.len(),
{
    if s.len() > 0 {
        let before = lines(s.drop_last());
        lines_are_single(s.drop_last());
        lines_nonempty(s.drop_last());
        if s.last() == '\n' {
            assert(single_line(Seq::<char>::empty()));
        } else {
            single_line_concat(before.last(), seq![s.last()]);
            assert(before.last() + seq![s.last()] =~= before.last().push(s.last()));
            assert(single_line(seq![s.last()]));
        }
    } else {
        assert(single_line(Seq::<char>::empty()));
    }
}

/// The lines of a text, joined by newlines, are the text.
pub proof fn join_of_lines(s: Seq<char>)
    ensures
        join(lines(s), seq!['\n']) == s,
    decreases s.len(),
{
    if s.len() == 0 {
        assert(s =~= Seq::<char>::empty());
    } else {
        let before = s.drop_last();
        let c = s.last();
        assert(s =~= before.push(c));
        join_of_lines(before);
        lines_push(before, c);
        if c == '\n' {
            join_push(lines(before), seq!['\n'], Seq::empty());
            assert(before + seq!['\n'] + Seq::<char>::empty() =~= s);
        } else {
            join_extend_last(lines(before), seq!['\n'], c);
        }
    }
}

/// The lines of two texts with a newline between them are the lines of the
/// first followed by the lines of the second.
pub proof fn lines_concat(a: Seq<char>, b: Seq<char>)
    ensures
        lines(a + seq!['\n'] + b) == lines(a) + lines(b),
    decreases b.len(),
{
    lines_nonempty(a);
    if b.len() == 0 {
        assert(a + seq!['\n'] + b =~= a.push('\n'));
        lines_push(a, '\n');
        assert(lines(b) =~= seq![Seq::<char>::empty()]);
        assert(lines(a).push(Seq::empty()) =~= lines(a) + lines(b));
    } else {
        let before = b.drop_last();
        let c = b.last();
        assert(b =~= before.push(c));
        assert(a + seq!['\n'] + b =~= (a + seq!['\n'] + before).push(c));
        lines_concat(a, before);
        lines_push(a + seq!['\n'] + before, c);
        lines_push(before, c);
        assert(lines(a + seq!['\n'] + b) =~= lines(a) + lines(b));
    }
}

/// Lines joined by newlines are found again as the lines of the joined text.
pub proof fn lines_of_join(parts: Seq<Seq<char>>)
    requires
        parts.len() >= 1,
        forall|i: int| 0 <= i < parts.len() ==> single_line(#[trigger] parts[i]),
    ensures
        lines(join(parts, seq!['\n'])) == parts,
    decreases parts.len(),
{
    if parts.len() == 1 {
        lines_of_single_line(parts[0]);
        assert(parts =~= seq![parts[0]]);
    } else {
        let before = parts.drop_last();
        lines_of_join(before);
        lines_of_single_line(parts.last());
        lines_concat(join(before, seq!['\n']), parts.last());
        assert(before + seq![parts.last()] =~= parts);
    }
}

/// The lines of an indented text are the lines of the text, each moved right
/// by one level.
pub proof fn lines_of_indent(s: Seq<char>)
    ensures
        lines(indent(s)) == lines(s).map_values(|line: Seq<char>| indent_line(line)),
{
    let shifted = lines(s).map_values(|line: Seq<char>| indent_line(line));
    lines_nonempty(s);
    lines_are_single(s);
    assert forall|i: int| 0 <= i < shifted.len() implies single_line(#[trigger] shifted[i]) by {
        single_line_concat(seq![' ', ' '], lines(s)[i]);
        assert(single_line(seq![' ', ' ']));
    }
    lines_of_join(shifted);
}

/// `String::push` of the standard library: the character is appended at the
/// end and nothing else changes.
pub assume_specification[ String::push ](text: &mut String, c: char)
    ensures
        final(text)@ == old(text)@.push(c),
;

/// Appends `body` to `out`, each line of it moved right by one level.
pub fn push_indented(out: &mut String, body: &str)
    ensures
        final(out)@ == old(out)@ + indent(body@),
{
    let ghost start = out@;
    out.append("  ");
    proof {
        reveal_strlit("  ");
        indent_empty();
        assert(out@ =~= start + indent(body@.take(0)));
    }
    for c in it: body.chars()
        invariant
            it.seq() == body@,
            out@ == start + indent(body@.take(it.index())),
    {
        proof {
            indent_push(body@.take(it.index()), c);
            assert(body@.take(it.index() + 1) =~= body@.take(it.index()).push(c));
        }
        if c == '\n' {
            out.append("\n  ");
            proof {
                reveal_strlit("\n  ");
            }
            assert("\n  "@ =~= seq!['\n', ' ', ' ']);
            assert(out@ =~= start + indent(body@.take(it.index() + 1)));
        } else {
            out.push(c);
            assert(out@ =~= start + indent(body@.take(it.index() + 1)));
        }
    }
    assert(body@.take(body@.len() as int) =~= body@);
}

} // verus!
