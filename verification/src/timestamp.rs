//! Playback times as text: shown as minutes or hours, entered as seconds,
//! minutes or hours.
use vstd::prelude::*;
use vstd::string::*;
use crate::text;
use crate::text::{push_decimal, push_decimal2};

verus! {

/// A time in milliseconds as hours, minutes and seconds, or as minutes and
/// seconds where it is below an hour.
pub open spec fn time_text(ms: nat) -> Seq<char> {
    let total = ms / 1000;
    let seconds = total % 60;
    let minutes = total / 60 % 60;
    let hours = total / 3600;
    if hours > 0 {
        text::decimal(hours) + seq![':'] + text::decimal2(minutes) + seq![':'] + text::decimal2(
            seconds,
        )
    } else {
        text::decimal(minutes) + seq![':'] + text::decimal2(seconds)
    }
}

/// A time in milliseconds as text.
pub fn format_time_ms(ms: u64) -> (shown: String)
    ensures
        shown@ == time_text(ms as nat),
{
    let total_seconds: u64 = ms / 1000;
    let seconds: u64 = total_seconds % 60;
    let minutes: u64 = (total_seconds / 60) % 60;
    let hours: u64 = total_seconds / 3600;
    let mut shown: String = String::new();
    if hours > 0 {
        push_decimal(&mut shown, hours);
        shown.push(':');
        push_decimal2(&mut shown, minutes);
        shown.push(':');
        push_decimal2(&mut shown, seconds);
    } else {
        push_decimal(&mut shown, minutes);
        shown.push(':');
        push_decimal2(&mut shown, seconds);
    }
    assert(shown@ =~= time_text(ms as nat));
    shown
}

/// The characters with the Unicode property `White_Space`.
pub open spec fn is_space(c: char) -> bool {
    ||| '\u{9}' <= c <= '\u{d}'
    ||| c == '\u{20}'
    ||| c == '\u{85}'
    ||| c == '\u{a0}'
    ||| c == '\u{1680}'
    ||| '\u{2000}' <= c <= '\u{200a}'
    ||| c == '\u{2028}'
    ||| c == '\u{2029}'
    ||| c == '\u{202f}'
    ||| c == '\u{205f}'
    ||| c == '\u{3000}'
}

/// A text without its leading white space.
pub open spec fn without_leading_space(s: Seq<char>) -> Seq<char>
    decreases s.len(),
{
    if s.len() > 0 && is_space(s[0]) {
        without_leading_space(s.skip(1))
    } else {
        s
    }
}

/// A text without its trailing white space.
pub open spec fn without_trailing_space(s: Seq<char>) -> Seq<char>
    decreases s.len(),
{
    if s.len() > 0 && is_space(s.last()) {
        without_trailing_space(s.drop_last())
    } else {
        s
    }
}

pub open spec fn trimmed(s: Seq<char>) -> Seq<char> {
    without_trailing_space(without_leading_space(s))
}

/// The fields between the colons of a text.
pub open spec fn fields(s: Seq<char>) -> Seq<Seq<char>>
    decreases s.len(),
{
    if s.len() == 0 {
        seq![seq![]]
    } else {
        let before = fields(s.drop_last());
        if s.last() == ':' {
            before.push(seq![])
        } else {
            before.update(before.len() - 1, before.last().push(s.last()))
        }
    }
}

/// The number in a field: digits, which a plus sign may precede. `None` where
/// it is anything else, or where it does not fit 64 bits.
pub open spec fn field_value(field: Seq<char>) -> Option<nat> {
    let digits = if field.len() > 0 && field[0] == '+' {
        field.skip(1)
    } else {
        field
    };
    if digits.len() > 0 && text::all_digits(digits) && text::decimal_value(digits) <= u64::MAX {
        Some(text::decimal_value(digits))
    } else {
        None
    }
}

/// The seconds that one to three fields stand for. Minutes and seconds are below
/// sixty where a larger unit precedes them.
pub open spec fn fields_seconds(parts: Seq<Seq<char>>) -> Option<nat> {
    if parts.len() == 1 {
        field_value(parts[0])
    } else if parts.len() == 2 {
        match (field_value(parts[0]), field_value(parts[1])) {
            (Some(minutes), Some(seconds)) => if seconds < 60 {
                Some(minutes * 60 + seconds)
            } else {
                None
            },
            _ => None,
        }
    } else if parts.len() == 3 {
        match (field_value(parts[0]), field_value(parts[1]), field_value(parts[2])) {
            (Some(hours), Some(minutes), Some(seconds)) => if minutes < 60 && seconds < 60 {
                Some(hours * 3600 + minutes * 60 + seconds)
            } else {
                None
            },
            _ => None,
        }
    } else {
        None
    }
}

/// The milliseconds that an entered timestamp stands for, as large as they may
/// be; `None` where the text is no timestamp.
pub open spec fn timestamp_ms(value: Seq<char>) -> Option<nat> {
    match fields_seconds(fields(trimmed(value))) {
        Some(seconds) => Some(seconds * 1000),
        None => None,
    }
}

/// Whether the time that a text stands for, if it is a timestamp, can be told in
/// 64 bits of milliseconds.
pub open spec fn timestamp_fits(value: Seq<char>) -> bool {
    timestamp_ms(value) matches Some(ms) ==> ms <= u64::MAX
}

fn space(c: char) -> (yes: bool)
    ensures
        yes == is_space(c),
{
    ('\u{9}' <= c && c <= '\u{d}') || c == '\u{20}' || c == '\u{85}' || c == '\u{a0}' || c
        == '\u{1680}' || ('\u{2000}' <= c && c <= '\u{200a}') || c == '\u{2028}' || c == '\u{2029}'
        || c == '\u{202f}' || c == '\u{205f}' || c == '\u{3000}'
}

/// The characters of a text.
pub fn chars_of(value: &str) -> (chars: Vec<char>)
    ensures
        chars@ == value@,
{
    let mut chars: Vec<char> = Vec::new();
    for c in it: value.chars()
        invariant
            chars@ == it.seq().take(it.index()),
            it.seq() == value@,
    {
        chars.push(c);
        assert(chars@ =~= it.seq().take(it.index() + 1));
    }
    assert(chars@ =~= value@);
    chars
}

fn trim(chars: &Vec<char>) -> (inner: Vec<char>)
    ensures
        inner@ == trimmed(chars@),
{
    let mut start: usize = 0;
    assert(chars@.skip(0) =~= chars@);
    while start < chars.len() && space(chars[start])
        invariant
            start <= chars.len(),
            without_leading_space(chars@.skip(start as int)) == without_leading_space(chars@),
        decreases chars.len() - start,
    {
        assert(chars@.skip(start as int).skip(1) =~= chars@.skip(start + 1));
        start = start + 1;
    }
    let ghost lead = chars@.skip(start as int);
    assert(lead == without_leading_space(chars@));
    let mut end: usize = chars.len();
    assert(lead.take(end - start) =~= lead);
    while end > start && space(chars[end - 1])
        invariant
            start <= end <= chars.len(),
            lead == chars@.skip(start as int),
            without_trailing_space(lead.take(end - start)) == without_trailing_space(lead),
        decreases end,
    {
        assert(lead.take(end - start).drop_last() =~= lead.take(end - 1 - start));
        assert(lead.take(end - start).last() == chars@[end - 1]);
        end = end - 1;
    }
    assert(end > start ==> lead.take(end - start).last() == chars@[end - 1]);
    let mut inner: Vec<char> = Vec::new();
    let mut i: usize = start;
    while i < end
        invariant
            start <= i <= end <= chars.len(),
            inner@ == chars@.subrange(start as int, i as int),
        decreases end - i,
    {
        inner.push(chars[i]);
        i = i + 1;
        assert(inner@ =~= chars@.subrange(start as int, i as int));
    }
    assert(inner@ =~= lead.take(end - start));
    inner
}

/// The views of the fields.
spec fn views(parts: Seq<Vec<char>>) -> Seq<Seq<char>> {
    parts.map_values(|part: Vec<char>| part@)
}

fn split_fields(chars: &Vec<char>) -> (parts: Vec<Vec<char>>)
    ensures
        views(parts@) == fields(chars@),
{
    let mut parts: Vec<Vec<char>> = Vec::new();
    let mut current: Vec<char> = Vec::new();
    let mut i: usize = 0;
    assert(views(parts@).push(current@) =~= fields(chars@.take(0)));
    while i < chars.len()
        invariant
            i <= chars.len(),
            views(parts@).push(current@) == fields(chars@.take(i as int)),
        decreases chars.len() - i,
    {
        let c: char = chars[i];
        let ghost before = views(parts@).push(current@);
        assert(chars@.take(i + 1).drop_last() =~= chars@.take(i as int));
        if c == ':' {
            parts.push(current);
            current = Vec::new();
            assert(views(parts@).push(current@) =~= before.push(seq![]));
        } else {
            current.push(c);
            assert(views(parts@).push(current@) =~= before.update(
                before.len() - 1,
                before.last().push(c),
            ));
        }
        i = i + 1;
    }
    assert(chars@.take(i as int) =~= chars@);
    let ghost before = views(parts@).push(current@);
    parts.push(current);
    assert(views(parts@) =~= before);
    parts
}

/// The beginning of a row of digits does not stand for more than the whole.
proof fn prefix_value_is_smaller(s: Seq<char>, i: int)
    requires
        0 <= i <= s.len(),
    ensures
        text::decimal_value(s.take(i)) <= text::decimal_value(s),
    decreases s.len() - i,
{
    if i == s.len() {
        assert(s.take(i) =~= s);
    } else {
        prefix_value_is_smaller(s, i + 1);
        assert(s.take(i + 1).drop_last() =~= s.take(i));
    }
}

fn parse_field(field: &Vec<char>) -> (value: Option<u64>)
    ensures
        match field_value(field@) {
            Some(n) => value == Some(n as u64),
            None => value is None,
        },
{
    let from: usize = if field.len() > 0 && field[0] == '+' {
        1
    } else {
        0
    };
    let ghost digits = field@.skip(from as int);
    assert(from == 0 ==> digits =~= field@);
    if from == field.len() {
        return None;
    }
    let mut value: u64 = 0;
    let mut i: usize = from;
    assert(text::decimal_value(digits.take(0)) == 0) by {
        assert(digits.take(0) =~= Seq::<char>::empty());
    }
    while i < field.len()
        invariant
            from <= i <= field.len(),
            digits == field@.skip(from as int),
            field_value(field@) == (if digits.len() > 0 && text::all_digits(digits)
                && text::decimal_value(digits) <= u64::MAX {
                Some(text::decimal_value(digits))
            } else {
                None
            }),
            forall|j: int| 0 <= j < i - from ==> text::is_digit(#[trigger] digits[j]),
            value == text::decimal_value(digits.take(i - from)),
        decreases field.len() - i,
    {
        let c: char = field[i];
        assert(c == digits[i - from]);
        assert(digits.take(i + 1 - from).drop_last() =~= digits.take(i - from));
        assert(digits.take(i + 1 - from).last() == c);
        if !('0' <= c && c <= '9') {
            assert(!text::all_digits(digits));
            return None;
        }
        proof {
            prefix_value_is_smaller(digits, i + 1 - from);
        }
        let d: u64 = c as u64 - 48;
        if value > (u64::MAX - d) / 10 {
            return None;
        }
        value = value * 10 + d;
        i = i + 1;
    }
    assert(digits.take(i - from) =~= digits);
    Some(value)
}

/// The numbers of three fields at most, where each is one.
fn parse_fields(parts: &Vec<Vec<char>>) -> (numbers: Option<Vec<u64>>)
    ensures
        numbers matches Some(found) ==> {
            &&& found@.len() == parts@.len()
            &&& forall|i: int|
                0 <= i < found@.len() ==> field_value(#[trigger] parts@[i]@) == Some(
                    found@[i] as nat,
                )
        },
        numbers is None ==> exists|i: int|
            0 <= i < parts@.len() && field_value(#[trigger] parts@[i]@) is None,
{
    let mut numbers: Vec<u64> = Vec::new();
    let mut i: usize = 0;
    while i < parts.len()
        invariant
            i <= parts.len(),
            numbers@.len() == i,
            forall|j: int|
                0 <= j < i ==> field_value(#[trigger] parts@[j]@) == Some(numbers@[j] as nat),
        decreases parts.len() - i,
    {
        match parse_field(&parts[i]) {
            Some(n) => numbers.push(n),
            None => {
                return None;
            },
        }
        i = i + 1;
    }
    Some(numbers)
}

/// The milliseconds that an entered timestamp stands for, however many.
fn parse_timestamp_wide(value: &str) -> (ms: Option<u128>)
    ensures
        match timestamp_ms(value@) {
            Some(n) => ms == Some(n as u128) && n <= u128::MAX,
            None => ms is None,
        },
{
    let chars: Vec<char> = chars_of(value);
    let inner: Vec<char> = trim(&chars);
    let parts: Vec<Vec<char>> = split_fields(&inner);
    assert forall|i: int| 0 <= i < parts@.len() implies fields(inner@)[i]
        == #[trigger] parts@[i]@ by {
        assert(views(parts@)[i] == parts@[i]@);
    }
    if parts.len() > 3 {
        return None;
    }
    let numbers: Vec<u64> = match parse_fields(&parts) {
        Some(numbers) => numbers,
        None => {
            return None;
        },
    };
    assert(forall|i: int|
        0 <= i < numbers@.len() ==> field_value(fields(inner@)[i]) == Some(numbers@[i] as nat));
    if numbers.len() == 1 {
        assert(field_value(fields(inner@)[0]) == Some(numbers@[0] as nat));
        return Some(numbers[0] as u128 * 1000);
    }
    if numbers.len() == 2 {
        assert(field_value(fields(inner@)[0]) == Some(numbers@[0] as nat));
        assert(field_value(fields(inner@)[1]) == Some(numbers@[1] as nat));
        if numbers[1] < 60 {
            return Some((numbers[0] as u128 * 60 + numbers[1] as u128) * 1000);
        }
        return None;
    }
    if numbers.len() == 3 {
        assert(field_value(fields(inner@)[0]) == Some(numbers@[0] as nat));
        assert(field_value(fields(inner@)[1]) == Some(numbers@[1] as nat));
        assert(field_value(fields(inner@)[2]) == Some(numbers@[2] as nat));
        if numbers[1] < 60 && numbers[2] < 60 {
            return Some(
                (numbers[0] as u128 * 3600 + numbers[1] as u128 * 60 + numbers[2] as u128) * 1000,
            );
        }
    }
    None
}

/// Tells whether [`parse_timestamp_ms`] may be asked for a text.
pub fn timestamp_in_range(value: &str) -> (fits: bool)
    ensures
        fits == timestamp_fits(value@),
{
    match parse_timestamp_wide(value) {
        Some(ms) => ms <= u64::MAX as u128,
        None => true,
    }
}

/// Reads an entered timestamp: seconds, minutes and seconds, or hours, minutes
/// and seconds, separated by colons.
pub fn parse_timestamp_ms(value: &str) -> (ms: Option<u64>)
    requires
        timestamp_fits(value@),
    ensures
        match timestamp_ms(value@) {
            Some(n) => ms == Some(n as u64),
            None => ms is None,
        },
{
    match parse_timestamp_wide(value) {
        Some(ms) => Some(ms as u64),
        None => None,
    }
}

/// Text without a colon continues the last field.
proof fn fields_continued(s: Seq<char>, d: Seq<char>)
    requires
        forall|i: int| 0 <= i < d.len() ==> #[trigger] d[i] != ':',
    ensures
        fields(s).len() > 0,
        fields(s + d) == fields(s).update(fields(s).len() - 1, fields(s).last() + d),
    decreases s.len() + d.len(),
{
    if d.len() == 0 {
        if s.len() > 0 {
            fields_continued(s.drop_last(), d);
        }
        assert(s + d =~= s);
        assert(fields(s).last() + d =~= fields(s).last());
        assert(fields(s + d) =~= fields(s).update(fields(s).len() - 1, fields(s).last() + d));
    } else {
        fields_continued(s, d.drop_last());
        assert((s + d).drop_last() =~= s + d.drop_last());
        assert((s + d).last() == d.last());
        let before = fields(s + d.drop_last());
        assert(before.last() =~= fields(s).last() + d.drop_last());
        assert(before.last().push(d.last()) =~= fields(s).last() + d);
        assert(fields(s + d) =~= fields(s).update(fields(s).len() - 1, fields(s).last() + d));
    }
}

/// A colon starts a new field.
proof fn fields_of_two(s: Seq<char>, d: Seq<char>)
    requires
        forall|i: int| 0 <= i < d.len() ==> #[trigger] d[i] != ':',
    ensures
        fields(s + seq![':'] + d) == fields(s).push(d),
{
    let t = s + seq![':'];
    assert(t.drop_last() =~= s);
    fields_continued(t, d);
    assert(fields(t) =~= fields(s).push(seq![]));
    assert(Seq::<char>::empty() + d =~= d);
    assert(fields(t + d) =~= fields(s).push(d));
}

proof fn digits_stay_trimmed(s: Seq<char>)
    requires
        s.len() > 0,
        text::is_digit(s[0]),
        text::is_digit(s.last()),
    ensures
        trimmed(s) == s,
{
}

proof fn digit_field(d: Seq<char>, n: nat)
    requires
        d.len() > 0,
        text::all_digits(d),
        text::decimal_value(d) == n,
        n <= u64::MAX,
    ensures
        field_value(d) == Some(n),
        fields(d) == seq![d],
        forall|i: int| 0 <= i < d.len() ==> #[trigger] d[i] != ':',
{
    assert(text::is_digit(d[0]));
    assert forall|i: int| 0 <= i < d.len() implies #[trigger] d[i] != ':' by {
        assert(text::is_digit(d[i]));
    }
    let none = Seq::<char>::empty();
    fields_continued(none, d);
    assert(none + d =~= d);
    assert(fields(d) =~= seq![d]);
}

/// A time that was shown can be entered again: it is read as the shown time,
/// which is the time to the second.
pub proof fn shown_time_reads_back(ms: nat)
    requires
        ms <= u64::MAX,
    ensures
        timestamp_ms(time_text(ms)) == Some(ms / 1000 * 1000),
{
    let total = ms / 1000;
    let seconds = total % 60;
    let minutes = total / 60 % 60;
    let hours = total / 3600;
    let s = time_text(ms);
    text::decimal_reads_back(hours);
    text::decimal_reads_back(minutes);
    text::decimal2_reads_back(minutes);
    text::decimal2_reads_back(seconds);
    let d = text::decimal2(seconds);
    digit_field(d, seconds);
    if hours > 0 {
        let a = text::decimal(hours);
        let b = text::decimal2(minutes);
        digit_field(a, hours);
        digit_field(b, minutes);
        fields_of_two(a, b);
        fields_of_two(a + seq![':'] + b, d);
        assert(fields(s) =~= seq![a, b, d]);
        assert(s[0] == a[0]);
        assert(text::is_digit(a[0]));
    } else {
        let b = text::decimal(minutes);
        digit_field(b, minutes);
        fields_of_two(b, d);
        assert(fields(s) =~= seq![b, d]);
        assert(s[0] == b[0]);
        assert(text::is_digit(b[0]));
    }
    assert(s.last() == d.last());
    assert(text::is_digit(d[d.len() - 1]));
    digits_stay_trimmed(s);
}

/// A row of digits that stands for a number of 64 bits.
pub open spec fn is_number(d: Seq<char>, n: nat) -> bool {
    d.len() > 0 && text::all_digits(d) && text::decimal_value(d) == n && n <= u64::MAX
}

/// The fields are what colons part.
proof fn fields_are_split(s: Seq<char>)
    ensures
        fields(s) == text::split(s, ':'),
    decreases s.len(),
{
    if s.len() > 0 {
        fields_are_split(s.drop_last());
    }
}

/// A time is shown as minutes and seconds, or from an hour on as hours, minutes and
/// seconds. Seconds have two digits, and so have minutes behind hours; the first
/// number has no leading zero.
pub proof fn shown_time_has_its_form(ms: nat)
    ensures
        ({
            let parts = text::split(time_text(ms), ':');
            let total = ms / 1000;
            let last = parts[parts.len() - 1];
            &&& parts.len() == (if ms >= 3_600_000 {
                3int
            } else {
                2int
            })
            &&& last.len() == 2 && text::all_digits(last)
            &&& text::decimal_value(last) == total % 60
            &&& text::all_digits(parts[0])
            &&& parts[0].len() > 0
            &&& parts[0].len() > 1 ==> parts[0][0] != '0'
            &&& ms < 3_600_000 ==> text::decimal_value(parts[0]) == total / 60
            &&& ms >= 3_600_000 ==> {
                &&& text::decimal_value(parts[0]) == total / 3600
                &&& parts[1].len() == 2 && text::all_digits(parts[1])
                &&& text::decimal_value(parts[1]) == total / 60 % 60
            }
        }),
{
    let total = ms / 1000;
    let seconds = total % 60;
    let minutes = total / 60 % 60;
    let hours = total / 3600;
    text::decimal_reads_back(hours);
    text::decimal_reads_back(minutes);
    text::decimal2_reads_back(minutes);
    text::decimal2_reads_back(seconds);
    text::decimal_is_shortest(hours);
    text::decimal_is_shortest(minutes);
    text::decimal2_has_two_digits(minutes);
    text::decimal2_has_two_digits(seconds);
    let d = text::decimal2(seconds);
    if hours > 0 {
        let a = text::decimal(hours);
        let b = text::decimal2(minutes);
        text::split_single(a, ':');
        text::split_added(a, ':', b);
        text::split_added(a + seq![':'] + b, ':', d);
        assert(text::split(time_text(ms), ':') =~= seq![a, b, d]);
    } else {
        let b = text::decimal(minutes);
        text::split_single(b, ':');
        text::split_added(b, ':', d);
        assert(text::split(time_text(ms), ':') =~= seq![b, d]);
    }
}

proof fn number_is_a_field(d: Seq<char>, n: nat)
    requires
        is_number(d, n),
    ensures
        field_value(d) == Some(n),
        fields(d) == seq![d],
        text::is_whole(d, ':'),
        text::is_digit(d[0]),
        text::is_digit(d[d.len() - 1]),
{
    digit_field(d, n);
    assert(text::is_digit(d[0]));
    assert(text::is_digit(d[d.len() - 1]));
}

/// One number is read as seconds, two as minutes and seconds, three as hours,
/// minutes and seconds. Behind a larger unit minutes and seconds must be below sixty.
pub proof fn timestamps_are_read(
    first: Seq<char>,
    second: Seq<char>,
    third: Seq<char>,
    a: nat,
    b: nat,
    c: nat,
)
    requires
        is_number(first, a),
        is_number(second, b),
        is_number(third, c),
    ensures
        ({
            let colon = seq![':'];
            &&& timestamp_ms(first) == Some(1000 * a)
            &&& b < 60 ==> timestamp_ms(first + colon + second) == Some(
                (1000 * (60 * a + b)) as nat,
            )
            &&& b >= 60 ==> timestamp_ms(first + colon + second) is None
            &&& b < 60 && c < 60 ==> timestamp_ms(first + colon + second + colon + third) == Some(
                (1000 * (3600 * a + 60 * b + c)) as nat,
            )
            &&& b >= 60 || c >= 60 ==> timestamp_ms(first + colon + second + colon + third) is None
        }),
{
    let colon = seq![':'];
    number_is_a_field(first, a);
    number_is_a_field(second, b);
    number_is_a_field(third, c);
    let two = first + colon + second;
    let three = two + colon + third;
    fields_of_two(first, second);
    fields_of_two(two, third);
    assert(fields(two) =~= seq![first, second]);
    assert(fields(three) =~= seq![first, second, third]);
    assert(two.last() == second[second.len() - 1]);
    assert(three.last() == third[third.len() - 1]);
    digits_stay_trimmed(first);
    digits_stay_trimmed(two);
    digits_stay_trimmed(three);
}

/// The colons of a text part it into one part more than there are of them, and every
/// other character lies in a part.
proof fn character_lies_in_a_part(s: Seq<char>, i: int)
    requires
        0 <= i < s.len(),
        s[i] != ':',
    ensures
        exists|k: int, j: int|
            0 <= k < fields(s).len() && 0 <= j < fields(s)[k].len() && #[trigger] fields(s)[k][j]
                == s[i],
    decreases s.len(),
{
    let before = fields(s.drop_last());
    fields_continued(s.drop_last(), seq![]);
    if i == s.len() - 1 {
        let k = before.len() - 1;
        let j = before.last().len() as int;
        assert(fields(s)[k][j] == s[i]);
    } else {
        character_lies_in_a_part(s.drop_last(), i);
        let (k, j) = choose|k: int, j: int|
            0 <= k < before.len() && 0 <= j < before[k].len() && #[trigger] before[k][j]
                == s.drop_last()[i];
        assert(fields(s)[k][j] == s[i]);
    }
}

/// Nothing else is read: apart from the white space around it a timestamp holds
/// digits, colons and plus signs alone, at most two colons, and no empty part.
pub proof fn only_timestamps_are_read(value: Seq<char>)
    requires
        timestamp_ms(value) is Some,
    ensures
        ({
            let inner = trimmed(value);
            let parts = text::split(inner, ':');
            &&& inner.len() > 0
            &&& 1 <= parts.len() <= 3
            &&& forall|k: int| 0 <= k < parts.len() ==> (#[trigger] parts[k]).len() > 0
            &&& forall|i: int|
                0 <= i < inner.len() ==> text::is_digit(#[trigger] inner[i]) || inner[i] == ':'
                    || inner[i] == '+'
        }),
{
    let inner = trimmed(value);
    let parts = fields(inner);
    fields_are_split(inner);
    assert forall|k: int| 0 <= k < parts.len() implies field_value(#[trigger] parts[k]) is Some by {
        assert(k == 0 || k == 1 || k == 2);
    }
    assert forall|i: int| 0 <= i < inner.len() implies text::is_digit(#[trigger] inner[i])
        || inner[i] == ':' || inner[i] == '+' by {
        if inner[i] != ':' {
            character_lies_in_a_part(inner, i);
            let (k, j) = choose|k: int, j: int|
                0 <= k < parts.len() && 0 <= j < parts[k].len() && #[trigger] parts[k][j]
                    == inner[i];
            let part = parts[k];
            assert(field_value(part) is Some);
            if part[0] == '+' {
                if j > 0 {
                    assert(text::is_digit(part.skip(1)[j - 1]));
                }
            } else {
                assert(text::is_digit(part[j]));
            }
        }
    }
    if inner.len() == 0 {
        assert(parts =~= seq![seq![]]);
        assert(field_value(parts[0]) is Some);
    }
}

/// A number that does not fit 64 bits is no part of a timestamp.
pub proof fn huge_numbers_are_rejected(d: Seq<char>)
    requires
        d.len() > 0,
        text::all_digits(d),
        text::decimal_value(d) > u64::MAX,
    ensures
        timestamp_ms(d) is None,
{
    assert(text::is_digit(d[0]));
    assert(text::is_digit(d[d.len() - 1]));
    digits_stay_trimmed(d);
    assert forall|i: int| 0 <= i < d.len() implies #[trigger] d[i] != ':' by {
        assert(text::is_digit(d[i]));
    }
    let none = Seq::<char>::empty();
    fields_continued(none, d);
    assert(none + d =~= d);
    assert(fields(d) =~= seq![d]);
}

proof fn leading_space_is_dropped(lead: Seq<char>, s: Seq<char>)
    requires
        forall|i: int| 0 <= i < lead.len() ==> is_space(#[trigger] lead[i]),
    ensures
        without_leading_space(lead + s) == without_leading_space(s),
    decreases lead.len(),
{
    if lead.len() == 0 {
        assert(lead + s =~= s);
    } else {
        assert(is_space(lead[0]));
        assert forall|i: int| 0 <= i < lead.skip(1).len() implies is_space(
            #[trigger] lead.skip(1)[i],
        ) by {
            assert(is_space(lead[i + 1]));
        }
        leading_space_is_dropped(lead.skip(1), s);
        assert((lead + s).skip(1) =~= lead.skip(1) + s);
    }
}

proof fn trailing_space_is_dropped(s: Seq<char>, trail: Seq<char>)
    requires
        forall|i: int| 0 <= i < trail.len() ==> is_space(#[trigger] trail[i]),
    ensures
        without_trailing_space(s + trail) == without_trailing_space(s),
    decreases trail.len(),
{
    if trail.len() == 0 {
        assert(s + trail =~= s);
    } else {
        assert(is_space(trail[trail.len() - 1]));
        assert forall|i: int| 0 <= i < trail.drop_last().len() implies is_space(
            #[trigger] trail.drop_last()[i],
        ) by {
            assert(is_space(trail[i]));
        }
        trailing_space_is_dropped(s, trail.drop_last());
        assert((s + trail).drop_last() =~= s + trail.drop_last());
    }
}

/// Blanks, tabs and ends of lines around a timestamp do not matter.
pub proof fn space_around_a_timestamp_does_not_matter(
    lead: Seq<char>,
    s: Seq<char>,
    trail: Seq<char>,
)
    requires
        forall|i: int|
            0 <= i < lead.len() ==> #[trigger] lead[i] == ' ' || lead[i] == '\t' || lead[i] == '\n'
                || lead[i] == '\r',
        forall|i: int|
            0 <= i < trail.len() ==> #[trigger] trail[i] == ' ' || trail[i] == '\t' || trail[i]
                == '\n' || trail[i] == '\r',
        s.len() > 0,
        text::is_digit(s[0]),
        text::is_digit(s[s.len() - 1]),
    ensures
        timestamp_ms(lead + s + trail) == timestamp_ms(s),
{
    leading_space_is_dropped(lead, s + trail);
    assert(lead + (s + trail) =~= lead + s + trail);
    assert((s + trail)[0] == s[0]);
    assert(without_leading_space(s + trail) == s + trail);
    trailing_space_is_dropped(s, trail);
    digits_stay_trimmed(s);
}

} // verus!
