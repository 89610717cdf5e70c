//! Decimal numbers and the UTF-8 form of text.
use vstd::prelude::*;
use vstd::string::*;
use vstd::utf8::*;

verus! {

/// `String::push`: the character is appended to the end of the string.
pub assume_specification[ String::push ](s: &mut String, c: char)
    ensures
        final(s)@ == old(s)@.push(c),
;

/// `String::pop`: the last character is removed and returned; an empty string
/// stays empty and gives `None`.
pub assume_specification[ String::pop ](s: &mut String) -> (last: Option<char>)
    ensures
        old(s)@.len() == 0 ==> last is None && final(s)@ == old(s)@,
        old(s)@.len() > 0 ==> last == Some(old(s)@.last()) && final(s)@ == old(s)@.drop_last(),
;

/// The decimal digit of a value below ten.
pub open spec fn digit(d: int) -> char {
    (d + 48) as char
}

pub open spec fn is_digit(c: char) -> bool {
    '0' <= c <= '9'
}

/// The value of a decimal digit.
pub open spec fn digit_value(c: char) -> int {
    c as int - 48
}

/// A number in decimal, without leading zeros.
pub open spec fn decimal(n: nat) -> Seq<char>
    decreases n,
{
    if n < 10 {
        seq![digit(n as int)]
    } else {
        decimal(n / 10).push(digit((n % 10) as int))
    }
}

/// A number in decimal, padded with a zero to at least two digits.
pub open spec fn decimal2(n: nat) -> Seq<char> {
    if n < 10 {
        seq!['0'] + decimal(n)
    } else {
        decimal(n)
    }
}

/// The number that a row of decimal digits stands for.
pub open spec fn decimal_value(s: Seq<char>) -> nat
    decreases s.len(),
{
    if s.len() == 0 {
        0
    } else {
        decimal_value(s.drop_last()) * 10 + (if is_digit(s.last()) {
            digit_value(s.last()) as nat
        } else {
            0
        })
    }
}

pub open spec fn all_digits(s: Seq<char>) -> bool {
    forall|i: int| 0 <= i < s.len() ==> is_digit(#[trigger] s[i])
}

/// The decimal form of a number is a nonempty row of digits, and reading it
/// back gives the number.
pub proof fn decimal_reads_back(n: nat)
    ensures
        decimal(n).len() > 0,
        all_digits(decimal(n)),
        decimal_value(decimal(n)) == n,
    decreases n,
{
    if n < 10 {
        let s = decimal(n);
        assert(s.drop_last() =~= Seq::<char>::empty());
        assert(decimal_value(s.drop_last()) == 0);
        assert(s.last() == digit(n as int));
    } else {
        decimal_reads_back(n / 10);
        let s = decimal(n);
        assert(s.drop_last() =~= decimal(n / 10));
        assert(s.last() == digit((n % 10) as int));
    }
}

/// Padding with a zero does not change the number that is read back.
pub proof fn decimal2_reads_back(n: nat)
    ensures
        decimal2(n).len() >= 2,
        all_digits(decimal2(n)),
        decimal_value(decimal2(n)) == n,
{
    decimal_reads_back(n);
    if n < 10 {
        let s = decimal2(n);
        assert(s.drop_last() =~= seq!['0']);
        assert(seq!['0'].drop_last() =~= Seq::<char>::empty());
        assert(decimal_value(Seq::<char>::empty()) == 0);
        assert(decimal_value(seq!['0']) == 0);
        assert(s.last() == digit(n as int));
    } else {
        assert(decimal(n) == decimal(n / 10).push(digit((n % 10) as int)));
        decimal_reads_back(n / 10);
    }
}

/// Appends a number in decimal.
pub fn push_decimal(text: &mut String, n: u64)
    ensures
        final(text)@ == old(text)@ + decimal(n as nat),
    decreases n,
{
    if n >= 10 {
        push_decimal(text, n / 10);
    }
    let d: u8 = (n % 10) as u8;
    text.push((48 + d) as char);
    assert(final(text)@ =~= old(text)@ + decimal(n as nat));
}

/// Appends a number in decimal, padded with a zero to at least two digits.
pub fn push_decimal2(text: &mut String, n: u64)
    ensures
        final(text)@ == old(text)@ + decimal2(n as nat),
{
    if n < 10 {
        text.push('0');
    }
    push_decimal(text, n);
    assert(final(text)@ =~= old(text)@ + decimal2(n as nat));
}

/// UTF-8 encodes a text piece by piece.
pub proof fn encode_utf8_concat(a: Seq<char>, b: Seq<char>)
    ensures
        encode_utf8(a + b) == encode_utf8(a) + encode_utf8(b),
    decreases a.len(),
{
    if a.len() == 0 {
        assert(a + b =~= b);
        assert(encode_utf8(a) + encode_utf8(b) =~= encode_utf8(b));
    } else {
        assert((a + b).drop_first() =~= a.drop_first() + b);
        encode_utf8_concat(a.drop_first(), b);
        assert(encode_utf8(a + b) =~= encode_utf8(a) + encode_utf8(b));
    }
}

/// The parts of a text between its separators.
pub open spec fn split(s: Seq<char>, separator: char) -> Seq<Seq<char>>
    decreases s.len(),
{
    if s.len() == 0 {
        seq![seq![]]
    } else {
        let before = split(s.drop_last(), separator);
        if s.last() == separator {
            before.push(seq![])
        } else {
            before.update(before.len() - 1, before.last().push(s.last()))
        }
    }
}

/// No character of a text is the separator.
pub open spec fn is_whole(s: Seq<char>, separator: char) -> bool {
    forall|i: int| 0 <= i < s.len() ==> #[trigger] s[i] != separator
}

proof fn split_continued(s: Seq<char>, separator: char, d: Seq<char>)
    requires
        is_whole(d, separator),
    ensures
        split(s, separator).len() > 0,
        split(s + d, separator) == split(s, separator).update(
            split(s, separator).len() - 1,
            split(s, separator).last() + d,
        ),
    decreases s.len() + d.len(),
{
    let parts = split(s, separator);
    if d.len() == 0 {
        if s.len() > 0 {
            split_continued(s.drop_last(), separator, d);
        }
        assert(s + d =~= s);
        assert(parts.last() + d =~= parts.last());
        assert(split(s + d, separator) =~= parts.update(parts.len() - 1, parts.last() + d));
    } else {
        split_continued(s, separator, d.drop_last());
        assert((s + d).drop_last() =~= s + d.drop_last());
        assert((s + d).last() == d.last());
        let before = split(s + d.drop_last(), separator);
        assert(before.last() =~= parts.last() + d.drop_last());
        assert(before.last().push(d.last()) =~= parts.last() + d);
        assert(split(s + d, separator) =~= parts.update(parts.len() - 1, parts.last() + d));
    }
}

/// A separator starts a new part.
pub proof fn split_added(s: Seq<char>, separator: char, d: Seq<char>)
    requires
        is_whole(d, separator),
    ensures
        split(s + seq![separator] + d, separator) == split(s, separator).push(d),
{
    let t = s + seq![separator];
    assert(t.drop_last() =~= s);
    split_continued(t, separator, d);
    assert(split(t, separator) =~= split(s, separator).push(seq![]));
    assert(Seq::<char>::empty() + d =~= d);
    assert(split(t + d, separator) =~= split(s, separator).push(d));
}

/// A text without separators is one part.
pub proof fn split_single(d: Seq<char>, separator: char)
    requires
        is_whole(d, separator),
    ensures
        split(d, separator) == seq![d],
{
    let none = Seq::<char>::empty();
    split_continued(none, separator, d);
    assert(none + d =~= d);
    assert(split(none, separator) =~= seq![none]);
    assert(split(d, separator) =~= seq![d]);
}

/// The decimal form of a number has no leading zero, so that there is one for every
/// number; and it holds none of the signs that part numbers from each other.
pub proof fn decimal_is_shortest(n: nat)
    ensures
        decimal(n)[0] == '0' ==> n == 0 && decimal(n).len() == 1,
        n < 10 <==> decimal(n).len() == 1,
        10 <= n < 100 <==> decimal(n).len() == 2,
        forall|separator: char| !is_digit(separator) ==> is_whole(decimal(n), separator),
    decreases n,
{
    decimal_reads_back(n);
    if n >= 10 {
        decimal_is_shortest(n / 10);
        decimal_reads_back(n / 10);
    }
    assert forall|separator: char| !is_digit(separator) implies is_whole(decimal(n), separator) by {
        assert forall|i: int| 0 <= i < decimal(n).len() implies #[trigger] decimal(n)[i]
            != separator by {
            assert(is_digit(decimal(n)[i]));
        }
    }
}

/// Below one hundred, a padded number has exactly two digits.
pub proof fn decimal2_has_two_digits(n: nat)
    requires
        n < 100,
    ensures
        decimal2(n).len() == 2,
        is_digit(decimal2(n)[0]),
        is_digit(decimal2(n)[1]),
        digit_value(decimal2(n)[0]) == n / 10,
        digit_value(decimal2(n)[1]) == n % 10,
{
    if n >= 10 {
        assert(decimal(n / 10) =~= seq![digit((n / 10) as int)]);
    }
}

/// Appends the UTF-8 bytes of a text.
pub fn append_text(buf: &mut Vec<u8>, text: &str)
    ensures
        final(buf)@ == old(buf)@ + encode_utf8(text@),
{
    buf.extend_from_slice(text.as_bytes());
}

} // verus!
