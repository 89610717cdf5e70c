//! The combining characters that number rows and columns of a placeholder grid.
//!
//! The characters come in runs of successive code points.
use vstd::prelude::*;

verus! {

/// How many rows or columns can be numbered.
pub const DIACRITIC_COUNT: u32 = 297;

/// The number of runs.
pub const RUN_COUNT: usize = 86;

/// The first number of each run.
pub const RUN_STARTS: [u32; 86] = [
    0, 1, 3, 4, 5, 8, 9, 12, 15, 16, 17, 30, 35, 39, 42, 48, 50, 52, 53, 54, 62, 67, 69,
    76, 80, 81, 83, 85, 86, 88, 90, 91, 92, 95, 96, 97, 98, 100, 107, 108, 112, 121, 124,
    129, 130, 132, 134, 136, 139, 140, 141, 142, 150, 151, 158, 161, 163, 164, 166, 173,
    175, 197, 198, 200, 204, 206, 207, 208, 209, 210, 213, 245, 246, 248, 250, 268, 269,
    271, 273, 275, 276, 283, 284, 285, 290, 294,
];

/// The code point of the first character of each run.
pub const RUN_CODES: [u32; 86] = [
    0x305, 0x30d, 0x310, 0x312, 0x33d, 0x346, 0x34a, 0x350, 0x357, 0x35b, 0x363, 0x483,
    0x592, 0x597, 0x59c, 0x5a8, 0x5ab, 0x5af, 0x5c4, 0x610, 0x657, 0x65d, 0x6d6, 0x6df,
    0x6e4, 0x6e7, 0x6eb, 0x730, 0x732, 0x735, 0x73a, 0x73d, 0x73f, 0x743, 0x745, 0x747,
    0x749, 0x7eb, 0x7f3, 0x816, 0x81b, 0x825, 0x829, 0x951, 0x953, 0xf82, 0xf86, 0x135d,
    0x17dd, 0x193a, 0x1a17, 0x1a75, 0x1b6b, 0x1b6d, 0x1cd0, 0x1cda, 0x1ce0, 0x1dc0,
    0x1dc3, 0x1dcb, 0x1dd1, 0x1dfe, 0x20d0, 0x20d4, 0x20db, 0x20e1, 0x20e7, 0x20e9,
    0x20f0, 0x2cef, 0x2de0, 0xa66f, 0xa67c, 0xa6f0, 0xa8e0, 0xaab0, 0xaab2, 0xaab7,
    0xaabe, 0xaac1, 0xfe20, 0x10a0f, 0x10a38, 0x1d185, 0x1d1aa, 0x1d242,
];

/// `char::from_u32`: the character with a code point, and `None` for a number
/// that is beyond all code points or is a surrogate.
pub assume_specification[ char::from_u32 ](code: u32) -> (c: Option<char>)
    ensures
        c is Some <==> code < 0xd800 || 0xe000 <= code <= 0x10ffff,
        c matches Some(c) ==> c as u32 == code,
;

/// The last run up to run `k` that does not begin behind the number `i`.
pub open spec fn run_of(i: int, k: int) -> int
    decreases k,
{
    if k <= 0 || RUN_STARTS@[k] <= i {
        k
    } else {
        run_of(i, k - 1)
    }
}

/// The code point of the character for a row or column number.
pub open spec fn diacritic_code(i: int) -> int {
    let run = run_of(i, RUN_COUNT - 1);
    RUN_CODES@[run] + (i - RUN_STARTS@[run])
}

/// The combining character for a row or column number.
pub open spec fn diacritic(i: int) -> char {
    diacritic_code(i) as char
}

/// The number behind the last one of a run.
pub open spec fn run_end(k: int) -> int {
    if k + 1 < RUN_COUNT {
        RUN_STARTS@[k + 1] as int
    } else {
        DIACRITIC_COUNT as int
    }
}

/// Runs are not empty, follow each other, and hold code points of characters.
proof fn run_holds_characters(k: int)
    requires
        0 <= k < RUN_COUNT,
    ensures
        RUN_STARTS@[0] == 0,
        RUN_STARTS@[k] < run_end(k),
        k + 1 < RUN_COUNT ==> RUN_CODES@[k] + (run_end(k) - RUN_STARTS@[k]) <= RUN_CODES@[k + 1],
        RUN_CODES@[k] + (run_end(k) - RUN_STARTS@[k]) <= 0xd800 || 0xe000 <= RUN_CODES@[k],
        RUN_CODES@[k] + (run_end(k) - RUN_STARTS@[k]) <= 0x10ffff,
{
}

/// A number lies in its run.
proof fn number_lies_in_its_run(i: int, k: int)
    requires
        0 <= k < RUN_COUNT,
        0 <= i < run_end(k),
    ensures
        0 <= run_of(i, k) <= k,
        RUN_STARTS@[run_of(i, k)] <= i < run_end(run_of(i, k)),
    decreases k,
{
    run_holds_characters(k);
    if k > 0 && RUN_STARTS@[k] > i {
        number_lies_in_its_run(i, k - 1);
    }
}

/// Every number has a character of its code point.
proof fn code_is_of_a_character(i: int)
    requires
        0 <= i < DIACRITIC_COUNT,
    ensures
        0 <= diacritic_code(i) < 0xd800 || 0xe000 <= diacritic_code(i) <= 0x10ffff,
{
    number_lies_in_its_run(i, RUN_COUNT - 1);
    run_holds_characters(run_of(i, RUN_COUNT - 1));
}

/// The combining character for a row or column number.
pub fn diacritic_for(i: u32) -> (c: char)
    requires
        i < DIACRITIC_COUNT,
    ensures
        c == diacritic(i as int),
{
    let mut run: usize = RUN_COUNT - 1;
    while run > 0 && RUN_STARTS[run] > i
        invariant
            run < RUN_COUNT,
            run_of(i as int, RUN_COUNT - 1) == run_of(i as int, run as int),
        decreases run,
    {
        run = run - 1;
    }
    proof {
        number_lies_in_its_run(i as int, RUN_COUNT - 1);
        run_holds_characters(run as int);
        code_is_of_a_character(i as int);
    }
    let code: u32 = RUN_CODES[run] + (i - RUN_STARTS[run]);
    match char::from_u32(code) {
        Some(c) => {
            proof {
                vstd::utf8::char_u32_cast(c, code);
            }
            c
        },
        None => ' ',
    }
}

/// The code points ascend from one run to the next.
proof fn runs_ascend(k: int, l: int)
    requires
        0 <= k < l < RUN_COUNT,
    ensures
        RUN_CODES@[k] + (run_end(k) - RUN_STARTS@[k]) <= RUN_CODES@[l],
    decreases l - k,
{
    run_holds_characters(l - 1);
    if k + 1 < l {
        runs_ascend(k, l - 1);
    }
}

/// A later number lies in the same run or in a later one.
proof fn runs_follow_the_numbers(i: int, j: int, k: int)
    requires
        0 <= i < j,
        0 <= k < RUN_COUNT,
    ensures
        run_of(i, k) <= run_of(j, k),
    decreases k,
{
    if k > 0 && RUN_STARTS@[k] > j {
        runs_follow_the_numbers(i, j, k - 1);
    } else {
        run_does_not_exceed(i, k);
    }
}

proof fn run_does_not_exceed(i: int, k: int)
    requires
        0 <= k < RUN_COUNT,
    ensures
        run_of(i, k) <= k,
    decreases k,
{
    if k > 0 && RUN_STARTS@[k] > i {
        run_does_not_exceed(i, k - 1);
    }
}

/// The characters stand in ascending order.
pub proof fn diacritics_ascend(i: int, j: int)
    requires
        0 <= i < j < DIACRITIC_COUNT,
    ensures
        diacritic(i) < diacritic(j),
{
    let last = RUN_COUNT - 1;
    number_lies_in_its_run(i, last);
    number_lies_in_its_run(j, last);
    code_is_of_a_character(i);
    code_is_of_a_character(j);
    runs_follow_the_numbers(i, j, last);
    if run_of(i, last) < run_of(j, last) {
        runs_ascend(run_of(i, last), run_of(j, last));
    }
}

/// No two row or column numbers share a character: a number can be told from
/// its character.
pub proof fn diacritics_are_distinct(i: int, j: int)
    requires
        0 <= i < DIACRITIC_COUNT,
        0 <= j < DIACRITIC_COUNT,
        diacritic(i) == diacritic(j),
    ensures
        i == j,
{
    if i < j {
        diacritics_ascend(i, j);
    }
    if j < i {
        diacritics_ascend(j, i);
    }
}

/// The first and the last of the characters, which all lie between them.
pub proof fn diacritics_have_their_bounds(i: int)
    requires
        0 <= i < 297,
    ensures
        diacritic(0) == '\u{305}',
        diacritic(296) == '\u{1d244}',
        '\u{305}' <= diacritic(i) <= '\u{1d244}',
{
    let last = RUN_COUNT - 1;
    number_lies_in_its_run(0, last);
    number_lies_in_its_run(296, last);
    run_holds_characters(0);
    assert(run_of(296, last) == last);
    assert(run_of(0, last) == 0) by {
        let run = run_of(0, last);
        if run > 0 {
            starts_are_positive(run);
        }
    }
    if 0 < i {
        diacritics_ascend(0, i);
    }
    if i < 296 {
        diacritics_ascend(i, 296);
    }
}

proof fn starts_are_positive(k: int)
    requires
        0 < k < RUN_COUNT,
    ensures
        RUN_STARTS@[k] > 0,
    decreases k,
{
    run_holds_characters(k - 1);
    if k > 1 {
        starts_are_positive(k - 1);
    }
}

} // verus!
