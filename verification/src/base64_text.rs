//! Base64, as the protocol carries pixels.
use vstd::prelude::*;
use base64::Engine;

verus! {

/// The character for six bits: letters, small letters, digits, `+` and `/`.
pub open spec fn sextet_char(v: int) -> char {
    if v < 26 {
        (v + 65) as char
    } else if v < 52 {
        (v - 26 + 97) as char
    } else if v < 62 {
        (v - 52 + 48) as char
    } else if v == 62 {
        '+'
    } else {
        '/'
    }
}

/// The byte at a position, zero beyond the end.
pub open spec fn byte_or_zero(data: Seq<u8>, i: int) -> int {
    if 0 <= i < data.len() {
        data[i] as int
    } else {
        0
    }
}

/// The `i`-th group of six bits of the data: four groups to three bytes.
pub open spec fn sextet(data: Seq<u8>, i: int) -> int {
    let k = i / 4 * 3;
    if i % 4 == 0 {
        byte_or_zero(data, k) / 4
    } else if i % 4 == 1 {
        byte_or_zero(data, k) % 4 * 16 + byte_or_zero(data, k + 1) / 16
    } else if i % 4 == 2 {
        byte_or_zero(data, k + 1) % 16 * 4 + byte_or_zero(data, k + 2) / 64
    } else {
        byte_or_zero(data, k + 2) % 64
    }
}

/// Whether the `i`-th character only pads the last group: it holds no bit of
/// the data.
pub open spec fn is_padding(len: nat, i: int) -> bool {
    ||| i % 4 == 2 && i / 4 * 3 + 1 >= len
    ||| i % 4 == 3 && i / 4 * 3 + 2 >= len
}

/// The number of characters: four for every three bytes begun.
pub open spec fn base64_len(len: nat) -> nat {
    (len + 2) / 3 * 4
}

/// Base64 with the standard alphabet and padding.
pub open spec fn base64(data: Seq<u8>) -> Seq<char> {
    Seq::new(
        base64_len(data.len()),
        |i: int|
            if is_padding(data.len(), i) {
                '='
            } else {
                sextet_char(sextet(data, i))
            },
    )
}

/// `base64::Engine::encode` of `BASE64_STANDARD`: the standard alphabet, padded
/// with `=` to a multiple of four characters. It panics where the text is longer
/// than a string can be.
#[verifier::external_body]
pub(crate) fn encode_standard(data: &[u8]) -> (encoded: String)
    requires
        base64_len(data@.len()) <= isize::MAX,
    ensures
        encoded@ == base64(data@),
{
    base64::prelude::BASE64_STANDARD.encode(data)
}

/// The six bits of a character of the alphabet.
pub open spec fn char_sextet(c: char) -> int {
    if 'A' <= c <= 'Z' {
        c as int - 65
    } else if 'a' <= c <= 'z' {
        c as int - 97 + 26
    } else if '0' <= c <= '9' {
        c as int - 48 + 52
    } else if c == '+' {
        62
    } else if c == '/' {
        63
    } else {
        0
    }
}

/// How many bytes a padded text stands for.
pub open spec fn decoded_len(s: Seq<char>) -> nat {
    let full = s.len() / 4 * 3;
    if s.len() >= 4 && s[s.len() - 2] == '=' {
        (full - 2) as nat
    } else if s.len() >= 4 && s[s.len() - 1] == '=' {
        (full - 1) as nat
    } else {
        full
    }
}

/// The bytes that a padded text stands for.
pub open spec fn decoded(s: Seq<char>) -> Seq<u8> {
    Seq::new(
        decoded_len(s),
        |j: int|
            {
                let k = j / 3 * 4;
                if j % 3 == 0 {
                    (char_sextet(s[k]) * 4 + char_sextet(s[k + 1]) / 16) as u8
                } else if j % 3 == 1 {
                    (char_sextet(s[k + 1]) % 16 * 16 + char_sextet(s[k + 2]) / 4) as u8
                } else {
                    (char_sextet(s[k + 2]) % 4 * 64 + char_sextet(s[k + 3])) as u8
                }
            },
    )
}

proof fn sextet_range(data: Seq<u8>, i: int)
    requires
        0 <= i,
    ensures
        0 <= sextet(data, i) < 64,
{
}

/// Every character of a Base64 text is a letter, a digit, `+`, `/` or `=`.
pub proof fn base64_alphabet(data: Seq<u8>, i: int)
    requires
        0 <= i < base64(data).len(),
    ensures
        ({
            let c = base64(data)[i];
            ||| 'A' <= c <= 'Z'
            ||| 'a' <= c <= 'z'
            ||| '0' <= c <= '9'
            ||| c == '+'
            ||| c == '/'
            ||| c == '='
        }),
{
    sextet_range(data, i);
}

/// Decoding a Base64 text gives back the bytes.
pub proof fn base64_reads_back(data: Seq<u8>)
    ensures
        decoded(base64(data)) == data,
{
    let s = base64(data);
    let n = data.len();
    assert forall|i: int| 0 <= i < s.len() && !is_padding(n, i) implies char_sextet(#[trigger] s[i])
        == sextet(data, i) && s[i] != '=' by {
        sextet_range(data, i);
    }
    assert(decoded_len(s) == n) by {
        if n > 0 {
            let last = s.len() - 1;
            assert(is_padding(n, last) <==> n % 3 != 0);
            assert(is_padding(n, last - 1) <==> n % 3 == 1);
            assert(s[last] == '=' <==> n % 3 != 0);
            assert(s[last - 1] == '=' <==> n % 3 == 1);
        }
    }
    assert forall|j: int| 0 <= j < n implies decoded(s)[j] == #[trigger] data[j] by {
        let k = j / 3 * 4;
        assert(k + 3 < s.len());
        assert(!is_padding(n, k) && !is_padding(n, k + 1));
        assert(sextet(data, k) == data[j / 3 * 3] as int / 4);
        if j % 3 == 0 {
            assert(char_sextet(s[k]) == sextet(data, k));
            assert(char_sextet(s[k + 1]) == sextet(data, k + 1));
        } else if j % 3 == 1 {
            assert(!is_padding(n, k + 2));
            assert(char_sextet(s[k + 1]) == sextet(data, k + 1));
            assert(char_sextet(s[k + 2]) == sextet(data, k + 2));
        } else {
            assert(!is_padding(n, k + 2) && !is_padding(n, k + 3));
            assert(char_sextet(s[k + 2]) == sextet(data, k + 2));
            assert(char_sextet(s[k + 3]) == sextet(data, k + 3));
        }
    }
    assert(decoded(s) =~= data);
}

} // verus!
