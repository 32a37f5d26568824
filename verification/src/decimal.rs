//! Numbers as they are written: numerals of natural numbers, and decimal
//! fractions with a fixed number of digits behind the point.

use vstd::prelude::*;

verus! {

/// The character of a single digit.
pub open spec fn digit(d: nat) -> char {
    if d == 0 {
        '0'
    } else if d == 1 {
        '1'
    } else if d == 2 {
        '2'
    } else if d == 3 {
        '3'
    } else if d == 4 {
        '4'
    } else if d == 5 {
        '5'
    } else if d == 6 {
        '6'
    } else if d == 7 {
        '7'
    } else if d == 8 {
        '8'
    } else {
        '9'
    }
}

/// The decimal numeral of `n`, without leading zeros: `0` is written `0`.
pub open spec fn numeral(n: nat) -> Seq<char>
    decreases n,
{
    if n < 10 {
        seq![digit(n)]
    } else {
        numeral(n / 10).push(digit(n % 10))
    }
}

/// The last `width` decimal digits of `n`, zeros included.
pub open spec fn last_digits(n: nat, width: nat) -> Seq<char>
    decreases width,
{
    if width == 0 {
        Seq::empty()
    } else {
        last_digits(n / 10, (width - 1) as nat).push(digit(n % 10))
    }
}

/// `n` without its last `count` decimal digits.
pub open spec fn without_last_digits(n: nat, count: nat) -> nat
    decreases count,
{
    if count == 0 {
        n
    } else {
        without_last_digits(n / 10, (count - 1) as nat)
    }
}

/// A decimal number: `digits` read as a whole number, with the point moved
/// `scale` places to the left, and a sign.
#[derive(Clone, Copy, Debug)]
pub struct Decimal {
    pub negative: bool,
    pub digits: u128,
    pub scale: u8,
}

impl Decimal {
    /// The number as it is written: a minus sign where it is negative, the
    /// digits before the point, and, where there are any, the point and the
    /// `scale` digits behind it. Neither part is shortened: two and a half with
    /// a scale of two is written `2.50`.
    pub open spec fn text(self) -> Seq<char> {
        let sign = if self.negative {
            seq!['-']
        } else {
            Seq::empty()
        };
        let whole = numeral(without_last_digits(self.digits as nat, self.scale as nat));
        if self.scale == 0 {
            sign + whole
        } else {
            sign + whole + seq!['.'] + last_digits(self.digits as nat, self.scale as nat)
        }
    }

    /// The decimal with the given sign, digits and scale.
    pub fn new(negative: bool, digits: u128, scale: u8) -> (out: Decimal)
        ensures
            out == (Decimal { negative, digits, scale }),
    {
        Decimal { negative, digits, scale }
    }

    /// Appends the number to `out` as it is written.
    pub fn write_to(&self, out: &mut String)
        ensures
            final(out)@ == old(out)@ + self.text(),
    {
        let ghost start = out@;
        if self.negative {
            out.push('-');
        }
        let mut whole: u128 = self.digits;
        let mut count: u8 = 0;
        while count < self.scale
            invariant
                count <= self.scale,
                without_last_digits(whole as nat, (self.scale - count) as nat) == without_last_digits(
                    self.digits as nat,
                    self.scale as nat,
                ),
            decreases self.scale - count,
        {
            whole = whole / 10;
            count += 1;
        }
        push_numeral(out, whole);
        if self.scale > 0 {
            out.push('.');
            push_last_digits(out, self.digits, self.scale);
        }
        assert(out@ =~= start + self.text());
    }

    /// The number as it is written.
    pub fn to_string(&self) -> (out: String)
        ensures
            out@ == self.text(),
    {
        let mut out = String::new();
        self.write_to(&mut out);
        out
    }
}

/// Whether `c` is a decimal digit.
pub open spec fn is_digit(c: char) -> bool {
    c == '0' || c == '1' || c == '2' || c == '3' || c == '4' || c == '5' || c == '6' || c == '7'
        || c == '8' || c == '9'
}

/// The value of the digit `c`.
pub open spec fn digit_value(c: char) -> nat {
    if c == '0' {
        0
    } else if c == '1' {
        1
    } else if c == '2' {
        2
    } else if c == '3' {
        3
    } else if c == '4' {
        4
    } else if c == '5' {
        5
    } else if c == '6' {
        6
    } else if c == '7' {
        7
    } else if c == '8' {
        8
    } else {
        9
    }
}

/// Whether `s` holds digits only.
pub open spec fn all_digits(s: Seq<char>) -> bool {
    forall|i: int| 0 <= i < s.len() ==> is_digit(#[trigger] s[i])
}

/// The number that the digits of `s` write. Leading zeros count for nothing.
pub open spec fn number(s: Seq<char>) -> nat
    decreases s.len(),
{
    if s.len() == 0 {
        0
    } else {
        number(s.drop_last()) * 10 + digit_value(s.last())
    }
}

/// Whether the digits at the front of `s` end at `end`: every character
/// before `end` is a digit, and the character at `end`, if there is one, is
/// none.
pub open spec fn digits_end_at(s: Seq<char>, end: int) -> bool {
    &&& 0 <= end <= s.len()
    &&& forall|i: int| 0 <= i < end ==> is_digit(#[trigger] s[i])
    &&& end < s.len() ==> !is_digit(s[end])
}

/// The number of digits at the front of `s`.
pub open spec fn leading_digits(s: Seq<char>) -> int {
    choose|end: int| digits_end_at(s, end)
}

/// The digits at the front of a text end at one place only.
pub proof fn leading_digits_end(s: Seq<char>, end: int)
    requires
        digits_end_at(s, end),
    ensures
        leading_digits(s) == end,
{
    let other = leading_digits(s);
    if other < end {
        assert(is_digit(s[other]));
    } else if end < other {
        assert(is_digit(s[end]));
    }
}

/// The parts of a decimal as it is written.
pub struct Written {
    pub negative: bool,
    pub whole: Seq<char>,
    pub fraction: Seq<char>,
}

/// The parts of `s`, where `s` is a written decimal: a minus sign or none,
/// one digit or more, and then either nothing, or a point and one digit or
/// more. Nothing may stand before, between or behind these.
pub open spec fn written(s: Seq<char>) -> Option<Written> {
    let negative = s.len() > 0 && s[0] == '-';
    let unsigned = if negative {
        s.drop_first()
    } else {
        s
    };
    let end = leading_digits(unsigned);
    let whole = unsigned.take(end);
    let rest = unsigned.skip(end);
    if end == 0 {
        None
    } else if rest.len() == 0 {
        Some(Written { negative, whole, fraction: Seq::empty() })
    } else if rest[0] == '.' && rest.len() >= 2 && all_digits(rest.drop_first()) {
        Some(Written { negative, whole, fraction: rest.drop_first() })
    } else {
        None
    }
}

/// The decimal that `s` writes, where it writes one that a [`Decimal`] can
/// hold: at most 255 digits behind the point, and all digits together a number
/// of 128 bits.
pub open spec fn parsed(s: Seq<char>) -> Option<Decimal> {
    match written(s) {
        Some(w) => if w.fraction.len() <= u8::MAX && number(w.whole + w.fraction) <= u128::MAX {
            Some(
                Decimal {
                    negative: w.negative,
                    digits: number(w.whole + w.fraction) as u128,
                    scale: w.fraction.len() as u8,
                },
            )
        } else {
            None
        },
        None => None,
    }
}

/// A numeral holds digits only, at least one, and writes its number.
pub proof fn numeral_is_read(n: nat)
    ensures
        numeral(n).len() >= 1,
        all_digits(numeral(n)),
        number(numeral(n)) == n,
    decreases n,
{
    if n < 10 {
        assert(numeral(n).drop_last() =~= Seq::<char>::empty());
        assert(number(numeral(n)) == number(Seq::<char>::empty()) * 10 + digit_value(digit(n)));
    } else {
        numeral_is_read(n / 10);
        assert(numeral(n).drop_last() =~= numeral(n / 10));
    }
}

/// The last digits of a number are as many digits as were asked for.
pub proof fn last_digits_are_digits(n: nat, width: nat)
    ensures
        last_digits(n, width).len() == width,
        all_digits(last_digits(n, width)),
    decreases width,
{
    if width > 0 {
        last_digits_are_digits(n / 10, (width - 1) as nat);
    }
}

/// The digits before the point, followed by those behind it, write the
/// number whose digits they are.
pub proof fn parts_write_digits(n: nat, width: nat)
    ensures
        number(numeral(without_last_digits(n, width)) + last_digits(n, width)) == n,
    decreases width,
{
    let whole = numeral(without_last_digits(n, width));
    if width == 0 {
        numeral_is_read(n);
        assert(whole + last_digits(n, width) =~= numeral(n));
    } else {
        let shorter = last_digits(n / 10, (width - 1) as nat);
        parts_write_digits(n / 10, (width - 1) as nat);
        assert((whole + last_digits(n, width)).drop_last() =~= whole + shorter);
    }
}

/// What is written is read back: the text of a decimal is read as that
/// decimal, with its sign, its digits and its scale.
pub proof fn written_is_read(d: Decimal)
    ensures
        parsed(d.text()) == Some(d),
{
    let n = d.digits as nat;
    let width = d.scale as nat;
    let whole = numeral(without_last_digits(n, width));
    let fraction = last_digits(n, width);
    let text = d.text();
    numeral_is_read(without_last_digits(n, width));
    last_digits_are_digits(n, width);
    parts_write_digits(n, width);
    let tail = if width == 0 {
        Seq::<char>::empty()
    } else {
        seq!['.'] + fraction
    };
    let unsigned = whole + tail;
    assert(is_digit(whole[0]));
    if d.negative {
        assert(text =~= seq!['-'] + unsigned);
        assert(text[0] == '-');
        assert(text.drop_first() =~= unsigned);
    } else {
        assert(text =~= unsigned);
        assert(text[0] == whole[0]);
    }
    assert(digits_end_at(unsigned, whole.len() as int)) by {
        assert forall|i: int| 0 <= i < whole.len() implies is_digit(#[trigger] unsigned[i]) by {
            assert(unsigned[i] == whole[i]);
        }
        if width > 0 {
            assert(unsigned[whole.len() as int] == '.');
        }
    }
    leading_digits_end(unsigned, whole.len() as int);
    assert(unsigned.take(whole.len() as int) =~= whole);
    assert(unsigned.skip(whole.len() as int) =~= tail);
    if width > 0 {
        assert(tail.drop_first() =~= fraction);
        assert(tail[0] == '.');
    } else {
        assert(whole + Seq::<char>::empty() =~= whole);
        assert(fraction =~= Seq::<char>::empty());
    }
}

/// Digits that do not begin with a zero write a number that is not zero.
proof fn number_is_positive(s: Seq<char>)
    requires
        s.len() >= 1,
        all_digits(s),
        s[0] != '0',
    ensures
        number(s) >= 1,
    decreases s.len(),
{
    if s.len() > 1 {
        assert(s.drop_last()[0] == s[0]);
        number_is_positive(s.drop_last());
    } else {
        assert(is_digit(s[0]));
    }
}

/// Digits without a needless leading zero are the numeral of their number.
pub proof fn numeral_of_number(s: Seq<char>)
    requires
        s.len() >= 1,
        all_digits(s),
        s.len() == 1 || s[0] != '0',
    ensures
        numeral(number(s)) == s,
    decreases s.len(),
{
    let before = s.drop_last();
    assert(is_digit(s.last()));
    assert(s =~= before.push(s.last()));
    if s.len() == 1 {
        assert(number(before) == 0);
    } else {
        assert(before[0] == s[0]);
        number_is_positive(before);
        numeral_of_number(before);
    }
}

/// Of the number that two runs of digits write together, the last digits are
/// the second run, and what is left without them is the number of the first.
pub proof fn number_splits(whole: Seq<char>, fraction: Seq<char>)
    requires
        all_digits(fraction),
    ensures
        last_digits(number(whole + fraction), fraction.len()) == fraction,
        without_last_digits(number(whole + fraction), fraction.len()) == number(whole),
    decreases fraction.len(),
{
    if fraction.len() == 0 {
        assert(whole + fraction =~= whole);
        assert(fraction =~= Seq::<char>::empty());
    } else {
        let before = fraction.drop_last();
        assert(is_digit(fraction.last()));
        assert((whole + fraction).drop_last() =~= whole + before);
        assert(fraction =~= before.push(fraction.last()));
        number_splits(whole, before);
    }
}

/// What is read is written back: a decimal that was read from a text without
/// a needless zero at its front is written as that text.
pub proof fn read_is_written(s: Seq<char>)
    requires
        parsed(s) is Some,
        written(s)->0.whole.len() == 1 || written(s)->0.whole[0] != '0',
    ensures
        parsed(s)->0.text() == s,
{
    let w = written(s)->0;
    let d = parsed(s)->0;
    let unsigned = if w.negative {
        s.drop_first()
    } else {
        s
    };
    let end = leading_digits(unsigned);
    digits_end_exist(unsigned);
    assert(w.whole =~= unsigned.take(end));
    assert(all_digits(w.whole)) by {
        assert forall|i: int| 0 <= i < w.whole.len() implies is_digit(#[trigger] w.whole[i]) by {
            assert(w.whole[i] == unsigned[i]);
        }
    }
    number_splits(w.whole, w.fraction);
    numeral_of_number(w.whole);
    let rest = unsigned.skip(end);
    assert(unsigned =~= w.whole + rest);
    if rest.len() > 0 {
        assert(rest =~= seq!['.'] + w.fraction);
    }
    if w.negative {
        assert(s =~= seq!['-'] + unsigned);
    }
    assert(d.text() =~= s);
}

/// The digits at the front of every text end somewhere.
proof fn digits_end_exist(s: Seq<char>)
    ensures
        digits_end_at(s, leading_digits(s)),
    decreases s.len(),
{
    if s.len() == 0 {
        assert(digits_end_at(s, 0));
    } else if !is_digit(s[0]) {
        assert(digits_end_at(s, 0));
    } else {
        let tail = s.drop_first();
        digits_end_exist(tail);
        let k = leading_digits(tail);
        assert(digits_end_at(s, k + 1)) by {
            assert forall|i: int| 0 <= i < k + 1 implies is_digit(#[trigger] s[i]) by {
                if i > 0 {
                    assert(s[i] == tail[i - 1]);
                }
            }
            if k + 1 < s.len() {
                assert(s[k + 1] == tail[k]);
            }
        }
    }
}

/// The value of the digit `c`, if `c` is a digit.
fn digit_of(c: char) -> (out: Option<u8>)
    ensures
        out is Some == is_digit(c),
        out matches Some(d) ==> d as nat == digit_value(c) && d < 10,
{
    if c == '0' {
        Some(0)
    } else if c == '1' {
        Some(1)
    } else if c == '2' {
        Some(2)
    } else if c == '3' {
        Some(3)
    } else if c == '4' {
        Some(4)
    } else if c == '5' {
        Some(5)
    } else if c == '6' {
        Some(6)
    } else if c == '7' {
        Some(7)
    } else if c == '8' {
        Some(8)
    } else if c == '9' {
        Some(9)
    } else {
        None
    }
}

/// The characters of `text`.
fn chars_of(text: &str) -> (out: Vec<char>)
    ensures
        out@ == text@,
{
    let mut out: Vec<char> = Vec::new();
    for c in it: text.chars()
        invariant
            it.seq() == text@,
            out@ == text@.take(it.index()),
    {
        assert(text@.take(it.index() + 1) =~= text@.take(it.index()).push(c));
        out.push(c);
    }
    assert(text@.take(text@.len() as int) =~= text@);
    out
}

/// A number that is read digit by digit, with a flag that falls once the
/// number has outgrown 128 bits.
struct Reading {
    value: u128,
    fits: bool,
}

impl Reading {
    /// Whether the reading stands for the number that `digits` write.
    spec fn reads(self, digits: Seq<char>) -> bool {
        if self.fits {
            self.value == number(digits)
        } else {
            number(digits) > u128::MAX
        }
    }

    /// The reading after one more digit.
    fn with_digit(self, d: u8, Ghost(digits): Ghost<Seq<char>>, Ghost(c): Ghost<char>) -> (out:
        Reading)
        requires
            self.reads(digits),
            d < 10,
            d as nat == digit_value(c),
        ensures
            out.reads(digits.push(c)),
    {
        assert(digits.push(c).drop_last() =~= digits);
        if !self.fits {
            return self;
        }
        match self.value.checked_mul(10) {
            Some(shifted) => match shifted.checked_add(d as u128) {
                Some(value) => Reading { value, fits: true },
                None => Reading { value: 0, fits: false },
            },
            None => Reading { value: 0, fits: false },
        }
    }
}

/// Reads the digits of `chars` from `from` on, up to the first character that
/// is no digit, and returns where they end.
fn read_digits(chars: &Vec<char>, from: usize, reading: Reading, Ghost(before): Ghost<Seq<char>>) -> (out:
    (usize, Reading))
    requires
        from <= chars.len(),
        reading.reads(before),
    ensures
        from <= out.0 <= chars.len(),
        digits_end_at(chars@.skip(from as int), out.0 - from),
        out.1.reads(before + chars@.subrange(from as int, out.0 as int)),
{
    let mut i: usize = from;
    let mut reading = reading;
    let mut stop = false;
    assert(before + chars@.subrange(from as int, from as int) =~= before);
    while i < chars.len() && !stop
        invariant
            from <= i <= chars.len(),
            forall|j: int| from <= j < i ==> is_digit(#[trigger] chars@[j]),
            stop ==> i < chars.len() && !is_digit(chars@[i as int]),
            reading.reads(before + chars@.subrange(from as int, i as int)),
        decreases chars.len() - i, if stop { 0int } else { 1int },
    {
        match digit_of(chars[i]) {
            Some(d) => {
                let ghost digits = before + chars@.subrange(from as int, i as int);
                reading = reading.with_digit(d, Ghost(digits), Ghost(chars@[i as int]));
                assert(digits.push(chars@[i as int]) =~= before + chars@.subrange(
                    from as int,
                    i as int + 1,
                ));
                i += 1;
            },
            None => {
                stop = true;
            },
        }
    }
    (i, reading)
}

impl Decimal {
    /// Reads a decimal as it is written: a minus sign or none, the digits
    /// before the point, and, where there are any, the point and the digits
    /// behind it. The digits behind the point are counted as they stand, so
    /// `2.50` has a scale of two. Everything else is refused, and so is a
    /// number that the type cannot hold.
    pub fn parse(text: &str) -> (out: Option<Decimal>)
        ensures
            out == parsed(text@),
    {
        let chars = chars_of(text);
        let negative = chars.len() > 0 && chars[0] == '-';
        let start: usize = if negative {
            1
        } else {
            0
        };
        let ghost unsigned = chars@.skip(start as int);
        assert(unsigned =~= if negative {
            text@.drop_first()
        } else {
            text@
        });
        let (end, whole) = read_digits(&chars, start, Reading { value: 0, fits: true }, Ghost(Seq::empty()));
        proof {
            leading_digits_end(unsigned, end - start);
            assert(Seq::<char>::empty() + chars@.subrange(start as int, end as int) =~= unsigned.take(
                end - start,
            ));
        }
        if end == start {
            return None;
        }
        if end == chars.len() {
            assert(unsigned.take(end - start) + Seq::<char>::empty() =~= unsigned.take(end - start));
            return if whole.fits {
                Some(Decimal { negative, digits: whole.value, scale: 0 })
            } else {
                None
            };
        }
        if chars[end] != '.' {
            return None;
        }
        let ghost rest = unsigned.skip(end - start);
        let ghost fraction = rest.drop_first();
        assert(fraction =~= chars@.skip(end as int + 1));
        let (last, all) = read_digits(&chars, end + 1, whole, Ghost(unsigned.take(end - start)));
        assert(chars@.subrange(end as int + 1, last as int) =~= fraction.take(last - end - 1));
        if last < chars.len() {
            assert(!is_digit(fraction[last - end - 1]));
            return None;
        }
        assert(fraction.take(last - end - 1) =~= fraction);
        if last == end + 1 {
            return None;
        }
        if last - end - 1 > 255 || !all.fits {
            return None;
        }
        Some(Decimal { negative, digits: all.value, scale: (last - end - 1) as u8 })
    }
}

/// The character of the digit `d`.
fn digit_char(d: u8) -> (out: char)
    requires
        d < 10,
    ensures
        out == digit(d as nat),
{
    if d == 0 {
        '0'
    } else if d == 1 {
        '1'
    } else if d == 2 {
        '2'
    } else if d == 3 {
        '3'
    } else if d == 4 {
        '4'
    } else if d == 5 {
        '5'
    } else if d == 6 {
        '6'
    } else if d == 7 {
        '7'
    } else if d == 8 {
        '8'
    } else {
        '9'
    }
}

/// Appends the decimal numeral of `n` to `out`.
pub fn push_numeral(out: &mut String, n: u128)
    ensures
        final(out)@ == old(out)@ + numeral(n as nat),
    decreases n,
{
    let ghost start = out@;
    if n >= 10 {
        push_numeral(out, n / 10);
    }
    out.push(digit_char((n % 10) as u8));
    assert(out@ =~= start + numeral(n as nat));
}

/// Appends the last `width` decimal digits of `n` to `out`.
fn push_last_digits(out: &mut String, n: u128, width: u8)
    ensures
        final(out)@ == old(out)@ + last_digits(n as nat, width as nat),
    decreases width,
{
    let ghost start = out@;
    if width > 0 {
        push_last_digits(out, n / 10, width - 1);
        out.push(digit_char((n % 10) as u8));
    }
    assert(out@ =~= start + last_digits(n as nat, width as nat));
}

} // verus!
