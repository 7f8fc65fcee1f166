//! Default colors: a color derived from a text by hashing.

use vstd::prelude::*;
use vstd::string::StringExecFns;
use vstd::utf8::encode_utf8;

verus! {

/// The 64-bit XXH3 hash of a byte string.
pub uninterp spec fn xxh3_64_of(input: Seq<u8>) -> u64;

/// `xxh3_64` of `xxhash_rust`: the hash depends on the bytes alone; the
/// contract gives it its name.
pub assume_specification[ xxhash_rust::xxh3::xxh3_64 ](input: &[u8]) -> (hash: u64)
    ensures
        hash == xxh3_64_of(input@),
;

/// The lower-case hexadecimal digit for a value below sixteen.
pub open spec fn hex_digit(value: nat) -> char {
    if value == 0 {
        '0'
    } else if value == 1 {
        '1'
    } else if value == 2 {
        '2'
    } else if value == 3 {
        '3'
    } else if value == 4 {
        '4'
    } else if value == 5 {
        '5'
    } else if value == 6 {
        '6'
    } else if value == 7 {
        '7'
    } else if value == 8 {
        '8'
    } else if value == 9 {
        '9'
    } else if value == 10 {
        'a'
    } else if value == 11 {
        'b'
    } else if value == 12 {
        'c'
    } else if value == 13 {
        'd'
    } else if value == 14 {
        'e'
    } else {
        'f'
    }
}

/// A number in lower-case hexadecimal, without leading zeros.
pub open spec fn hex_text(value: nat) -> Seq<char>
    decreases value,
{
    if value < 16 {
        seq![hex_digit(value)]
    } else {
        hex_text(value / 16).push(hex_digit(value % 16))
    }
}

/// The color for a hash: `#` and the first six hexadecimal digits of the
/// hash, or all of them where it has fewer.
pub open spec fn color_of(hash: u64) -> Seq<char> {
    let digits = hex_text(hash as nat);
    seq!['#'] + digits.take(
        if digits.len() < 6 {
            digits.len() as int
        } else {
            6
        },
    )
}

fn hex_digit_str(value: u8) -> (digit: &'static str)
    requires
        value < 16,
    ensures
        digit@ == seq![hex_digit(value as nat)],
{
    proof {
        reveal_strlit("0");
        reveal_strlit("1");
        reveal_strlit("2");
        reveal_strlit("3");
        reveal_strlit("4");
        reveal_strlit("5");
        reveal_strlit("6");
        reveal_strlit("7");
        reveal_strlit("8");
        reveal_strlit("9");
        reveal_strlit("a");
        reveal_strlit("b");
        reveal_strlit("c");
        reveal_strlit("d");
        reveal_strlit("e");
        reveal_strlit("f");
    }
    let digit = if value == 0 {
        "0"
    } else if value == 1 {
        "1"
    } else if value == 2 {
        "2"
    } else if value == 3 {
        "3"
    } else if value == 4 {
        "4"
    } else if value == 5 {
        "5"
    } else if value == 6 {
        "6"
    } else if value == 7 {
        "7"
    } else if value == 8 {
        "8"
    } else if value == 9 {
        "9"
    } else if value == 10 {
        "a"
    } else if value == 11 {
        "b"
    } else if value == 12 {
        "c"
    } else if value == 13 {
        "d"
    } else if value == 14 {
        "e"
    } else {
        "f"
    };
    digit
}

/// The digits of `low`, last pushed first: the text of the low-order digits
/// in reading order.
pub open spec fn low_digits(low: Seq<u8>) -> Seq<char> {
    Seq::new(low.len(), |k: int| hex_digit(low[low.len() - 1 - k] as nat))
}

/// Writes the color for a hash.
pub fn hex_color(hash: u64) -> (color: String)
    ensures
        color@ == color_of(hash),
{
    let mut low: Vec<u8> = Vec::new();
    let mut rest: u64 = hash;
    while rest >= 16
        invariant
            hex_text(hash as nat) == hex_text(rest as nat) + low_digits(low@),
            forall|k: int| 0 <= k < low.len() ==> low@[k] < 16,
        decreases rest,
    {
        let digit: u8 = (rest % 16) as u8;
        let ghost before = low@;
        low.push(digit);
        proof {
            assert(hex_text(rest as nat) + low_digits(before) =~= hex_text((rest / 16) as nat)
                + low_digits(low@));
        }
        rest = rest / 16;
    }
    let ghost digits = hex_text(hash as nat);
    proof {
        reveal_strlit("#");
    }
    let mut color = String::from_str("#");
    color.append(hex_digit_str(rest as u8));
    let mut written: usize = 1;
    let mut i: usize = low.len();
    while i > 0 && written < 6
        invariant
            i <= low.len(),
            written == 1 + (low.len() - i),
            written <= 6,
            digits == seq![hex_digit(rest as nat)] + low_digits(low@),
            forall|k: int| 0 <= k < low.len() ==> low@[k] < 16,
            color@ == seq!['#'] + digits.take(written as int),
        decreases i,
    {
        i -= 1;
        color.append(hex_digit_str(low[i]));
        proof {
            assert(digits.take(written + 1) =~= digits.take(written as int).push(
                digits[written as int],
            ));
        }
        written += 1;
    }
    color
}

/// The default color for a text: the color of the XXH3 hash of its UTF-8
/// bytes.
pub fn hash_hex_color(s: String) -> (color: String)
    ensures
        color@ == color_of(xxh3_64_of(encode_utf8(s@))),
{
    let hash = xxhash_rust::xxh3::xxh3_64(s.as_str().as_bytes());
    hex_color(hash)
}

} // verus!
