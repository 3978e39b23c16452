//! Lower-case hexadecimal text for identifier bytes.
use vstd::prelude::*;

verus! {

/// The ASCII code of the lower-case hex digit for a nibble.
pub open spec fn digit_byte(d: u8) -> u8 {
    if d < 10 {
        (d + 48) as u8
    } else {
        (d + 87) as u8
    }
}

/// The lower-case hex digit for a nibble.
pub open spec fn digit_char(d: u8) -> char {
    (digit_byte(d) as u32) as char
}

/// Two digits per byte, high nibble first.
pub open spec fn hex_of(b: Seq<u8>) -> Seq<char> {
    Seq::new(
        2 * b.len(),
        |k: int|
            if k % 2 == 0 {
                digit_char(b[k / 2] / 16)
            } else {
                digit_char(b[k / 2] % 16)
            },
    )
}

pub open spec fn is_hex_byte(c: u8) -> bool {
    (48 <= c && c <= 57) || (97 <= c && c <= 102)
}

pub open spec fn hex_byte_value(c: u8) -> u8 {
    if c <= 57 {
        (c - 48) as u8
    } else {
        (c - 87) as u8
    }
}

pub open spec fn all_hex(s: Seq<u8>) -> bool {
    forall|i: int| 0 <= i < s.len() ==> is_hex_byte(#[trigger] s[i])
}

/// Reads pairs of digits as bytes, high nibble first.
pub open spec fn decode_pairs(s: Seq<u8>) -> Seq<u8> {
    Seq::new(
        s.len() / 2,
        |j: int| (hex_byte_value(s[2 * j]) * 16 + hex_byte_value(s[2 * j + 1])) as u8,
    )
}

/// The code of each character, as one byte.
pub open spec fn low_bytes(cs: Seq<char>) -> Seq<u8> {
    Seq::new(cs.len(), |i: int| cs[i] as u8)
}

pub proof fn lemma_digit(d: u8)
    requires
        d < 16,
    ensures
        is_hex_byte(digit_byte(d)),
        hex_byte_value(digit_byte(d)) == d,
        digit_char(d) as u8 == digit_byte(d),
        '\0' <= digit_char(d) <= '\u{7f}',
{
}

/// Hex text decodes back to the bytes it was made from.
pub proof fn lemma_hex_round_trip(b: Seq<u8>)
    ensures
        low_bytes(hex_of(b)).len() == 2 * b.len(),
        all_hex(low_bytes(hex_of(b))),
        decode_pairs(low_bytes(hex_of(b))) == b,
        forall|i: int| 0 <= i < hex_of(b).len() ==> '\0' <= #[trigger] hex_of(b)[i] <= '\u{7f}',
{
    let h = hex_of(b);
    let l = low_bytes(h);
    assert forall|i: int| 0 <= i < h.len() implies '\0' <= #[trigger] h[i] <= '\u{7f}' && is_hex_byte(
        l[i],
    ) by {
        lemma_digit(b[i / 2] / 16);
        lemma_digit(b[i / 2] % 16);
    }
    let d = decode_pairs(l);
    assert forall|j: int| 0 <= j < b.len() implies #[trigger] d[j] == b[j] by {
        let x = b[j];
        lemma_digit(x / 16);
        lemma_digit(x % 16);
        assert(2 * j / 2 == j);
        assert((2 * j + 1) / 2 == j);
        assert((2 * j + 1) % 2 == 1);
        assert((2 * j) % 2 == 0);
        assert((x / 16) * 16 + x % 16 == x);
    }
    assert(d =~= b);
}

/// The value of one digit, if `c` is a lower-case hex digit.
pub fn hex_digit_value(c: u8) -> (r: Option<u8>)
    ensures
        r == (if is_hex_byte(c) {
            Some(hex_byte_value(c))
        } else {
            None::<u8>
        }),
{
    if 48 <= c && c <= 57 {
        Some(c - 48)
    } else if 97 <= c && c <= 102 {
        Some(c - 87)
    } else {
        None
    }
}

/// Decodes `2 * n` digits starting at `start` into `n` bytes.
pub fn decode_hex(s: &[u8], start: usize, n: usize) -> (r: Option<Vec<u8>>)
    requires
        start + 2 * n <= s@.len(),
    ensures
        all_hex(s@.subrange(start as int, start + 2 * n)) ==> r.is_some() && r.unwrap()@
            == decode_pairs(s@.subrange(start as int, start + 2 * n)),
        !all_hex(s@.subrange(start as int, start + 2 * n)) ==> r.is_none(),
{
    let ghost part = s@.subrange(start as int, start + 2 * n);
    let len = s.len();
    let mut out: Vec<u8> = Vec::new();
    let mut j: usize = 0;
    while j < n
        invariant
            j <= n,
            start + 2 * n <= s@.len(),
            len == s@.len(),
            part == s@.subrange(start as int, start + 2 * n),
            out@.len() == j,
            forall|k: int| 0 <= k < 2 * j ==> is_hex_byte(#[trigger] part[k]),
            forall|k: int| 0 <= k < j ==> #[trigger] out@[k] == decode_pairs(part)[k],
        decreases n - j,
    {
        let hi = hex_digit_value(s[start + 2 * j]);
        let lo = hex_digit_value(s[start + 2 * j + 1]);
        match (hi, lo) {
            (Some(h), Some(l)) => {
                out.push(h * 16 + l);
            },
            _ => {
                assert(!is_hex_byte(part[2 * j as int]) || !is_hex_byte(part[2 * j + 1]));
                return None;
            },
        }
        j = j + 1;
    }
    assert(out@ =~= decode_pairs(part));
    Some(out)
}

/// Appends the digit for nibble `d`.
fn push_digit(out: &mut String, d: u8)
    requires
        d < 16,
    ensures
        final(out)@ == old(out)@.push(digit_char(d)),
{
    match d {
        0 => {
            proof { reveal_strlit("0"); }
            out.append("0");
        },
        1 => {
            proof { reveal_strlit("1"); }
            out.append("1");
        },
        2 => {
            proof { reveal_strlit("2"); }
            out.append("2");
        },
        3 => {
            proof { reveal_strlit("3"); }
            out.append("3");
        },
        4 => {
            proof { reveal_strlit("4"); }
            out.append("4");
        },
        5 => {
            proof { reveal_strlit("5"); }
            out.append("5");
        },
        6 => {
            proof { reveal_strlit("6"); }
            out.append("6");
        },
        7 => {
            proof { reveal_strlit("7"); }
            out.append("7");
        },
        8 => {
            proof { reveal_strlit("8"); }
            out.append("8");
        },
        9 => {
            proof { reveal_strlit("9"); }
            out.append("9");
        },
        10 => {
            proof { reveal_strlit("a"); }
            out.append("a");
        },
        11 => {
            proof { reveal_strlit("b"); }
            out.append("b");
        },
        12 => {
            proof { reveal_strlit("c"); }
            out.append("c");
        },
        13 => {
            proof { reveal_strlit("d"); }
            out.append("d");
        },
        14 => {
            proof { reveal_strlit("e"); }
            out.append("e");
        },
        _ => {
            proof { reveal_strlit("f"); }
            out.append("f");
        },
    }
}

/// Appends two lower-case hex digits for each byte of `b`.
pub fn append_hex(out: &mut String, b: &Vec<u8>)
    ensures
        final(out)@ == old(out)@ + hex_of(b@),
{
    let ghost start = out@;
    let mut i: usize = 0;
    while i < b.len()
        invariant
            i <= b@.len(),
            out@ == start + hex_of(b@.subrange(0, i as int)),
        decreases b@.len() - i,
    {
        let x = b[i];
        push_digit(out, x / 16);
        push_digit(out, x % 16);
        proof {
            let prev = hex_of(b@.subrange(0, i as int));
            let next = hex_of(b@.subrange(0, i + 1));
            assert(next =~= prev.push(digit_char(x / 16)).push(digit_char(x % 16))) by {
                assert forall|k: int| 0 <= k < next.len() implies #[trigger] next[k] == prev.push(
                    digit_char(x / 16),
                ).push(digit_char(x % 16))[k] by {
                    assert(k / 2 <= i);
                    if k < 2 * i {
                        assert(k / 2 < i);
                    } else if k == 2 * i {
                        assert(k / 2 == i && k % 2 == 0);
                    } else {
                        assert(k / 2 == i && k % 2 == 1);
                    }
                }
            }
        }
        i = i + 1;
    }
    assert(b@.subrange(0, i as int) =~= b@);
}

} // verus!
