//! Lowercase hexadecimal rendering of byte strings.
//!
//! Client identifiers and group identifiers travel as lowercase hex inside
//! topics, so the encoding is part of the addressing scheme and is verified.

use vstd::prelude::*;

verus! {

/// The lowercase hex digit for a value below 16.
pub open spec fn hex_digit(n: int) -> u8
    recommends
        0 <= n < 16,
{
    if n < 10 {
        (48 + n) as u8
    } else {
        (87 + n) as u8
    }
}

/// The lowercase hex rendering of a byte string: two digits per byte,
/// high nibble first.
pub open spec fn hex_enc(s: Seq<u8>) -> Seq<u8> {
    Seq::new(
        2 * s.len(),
        |i: int|
            if i % 2 == 0 {
                hex_digit(s[i / 2] as int / 16)
            } else {
                hex_digit(s[i / 2] as int % 16)
            },
    )
}

/// True of a byte that is a lowercase hex digit.
pub open spec fn is_hex_digit(b: u8) -> bool {
    (48 <= b <= 57) || (97 <= b <= 102)
}

/// The value of a lowercase hex digit byte.
pub open spec fn hex_val(b: u8) -> int
    recommends
        is_hex_digit(b),
{
    if b < 97 {
        b - 48
    } else {
        b - 87
    }
}

proof fn lemma_hex_digit_val(n: int)
    requires
        0 <= n < 16,
    ensures
        is_hex_digit(hex_digit(n)),
        hex_val(hex_digit(n)) == n,
{
}

/// Distinct nibble values render as distinct digits.
proof fn lemma_hex_digit_injective(a: int, b: int)
    requires
        0 <= a < 16,
        0 <= b < 16,
        hex_digit(a) == hex_digit(b),
    ensures
        a == b,
{
}

/// Renders a byte string as lowercase hex.
pub fn to_hex(bytes: &Vec<u8>) -> (r: Vec<u8>)
    requires
        bytes@.len() <= usize::MAX / 2,
    ensures
        r@ == hex_enc(bytes@),
{
    let mut r: Vec<u8> = Vec::new();
    let mut i: usize = 0;
    while i < bytes.len()
        invariant
            i <= bytes@.len(),
            bytes@.len() <= usize::MAX / 2,
            r@.len() == 2 * i,
            forall|j: int| 0 <= j < r@.len() ==> r@[j] == hex_enc(bytes@)[j],
        decreases bytes@.len() - i,
    {
        let b = bytes[i];
        r.push(hex_digit_of(b / 16));
        r.push(hex_digit_of(b % 16));
        i = i + 1;
    }
    proof {
        assert(r@ =~= hex_enc(bytes@));
    }
    r
}

/// The lowercase hex digit byte for a value below 16.
fn hex_digit_of(n: u8) -> (r: u8)
    requires
        n < 16,
    ensures
        r == hex_digit(n as int),
{
    if n < 10 {
        48 + n
    } else {
        87 + n
    }
}

/// Reads a lowercase hex rendering back into bytes. Returns `None` unless the
/// input is exactly the lowercase hex rendering of some byte string.
pub fn from_hex(text: &Vec<u8>) -> (r: Option<Vec<u8>>)
    ensures
        match r {
            Some(b) => text@ == hex_enc(b@),
            None => forall|b: Seq<u8>| text@ != hex_enc(b),
        },
{
    if text.len() % 2 != 0 {
        proof {
            assert forall|b: Seq<u8>| text@ != hex_enc(b) by {
                assert(hex_enc(b).len() % 2 == 0);
            }
        }
        return None;
    }
    let mut out: Vec<u8> = Vec::new();
    let mut i: usize = 0;
    while i < text.len()
        invariant
            i <= text@.len(),
            i % 2 == 0,
            text@.len() % 2 == 0,
            out@.len() * 2 == i,
            text@.subrange(0, i as int) == hex_enc(out@),
        decreases text@.len() - i,
    {
        let hi = text[i];
        let lo = text[i + 1];
        if !(48 <= hi && hi <= 57 || 97 <= hi && hi <= 102) || !(48 <= lo && lo <= 57 || 97 <= lo
            && lo <= 102) {
            proof {
                lemma_no_preimage_on_bad_digit(text@, i as int);
            }
            return None;
        }
        let hv: u8 = if hi < 97 {
            hi - 48
        } else {
            hi - 87
        };
        let lv: u8 = if lo < 97 {
            lo - 48
        } else {
            lo - 87
        };
        let b: u8 = hv * 16 + lv;
        out.push(b);
        proof {
            let ghost n = out@.len() as int;
            assert(out@[n - 1] == b);
            assert(b / 16 == hv && b % 16 == lv) by {
                assert(hv < 16 && lv < 16);
            }
            assert(hex_digit(b as int / 16) == hi && hex_digit(b as int % 16) == lo) by {
                lemma_hex_digit_val(hv as int);
                lemma_hex_digit_val(lv as int);
                lemma_hex_digit_injective(b as int / 16, hv as int);
                lemma_hex_digit_injective(b as int % 16, lv as int);
                assert(hex_val(hex_digit(hv as int)) == hv as int);
                assert(is_hex_digit(hi) && hex_val(hi) == hv as int);
                assert(hex_digit(hv as int) == hi) by {
                    if hex_digit(hv as int) != hi {
                        assert(hex_val(hex_digit(hv as int)) == hex_val(hi));
                    }
                }
                assert(hex_digit(lv as int) == lo) by {
                    lemma_hex_digit_val(lv as int);
                    if hex_digit(lv as int) != lo {
                        assert(hex_val(hex_digit(lv as int)) == hex_val(lo));
                    }
                }
            }
            assert(text@.subrange(0, i + 2) =~= hex_enc(out@));
        }
        i = i + 2;
    }
    proof {
        assert(text@.subrange(0, text@.len() as int) =~= text@);
    }
    Some(out)
}

/// If some position of the text holds a byte that is not a lowercase hex
/// digit, the text is no hex rendering at all.
proof fn lemma_no_preimage_on_bad_digit(text: Seq<u8>, i: int)
    requires
        0 <= i < text.len(),
        !is_hex_digit(text[i]) || (i + 1 < text.len() && !is_hex_digit(text[i + 1])),
    ensures
        forall|b: Seq<u8>| text != hex_enc(b),
{
    assert forall|b: Seq<u8>| text != hex_enc(b) by {
        if text == hex_enc(b) {
            assert(is_hex_digit(text[i])) by {
                if i % 2 == 0 {
                    lemma_hex_digit_val(b[i / 2] as int / 16);
                } else {
                    lemma_hex_digit_val(b[i / 2] as int % 16);
                }
            }
            if i + 1 < text.len() {
                assert(is_hex_digit(text[i + 1])) by {
                    if (i + 1) % 2 == 0 {
                        lemma_hex_digit_val(b[(i + 1) / 2] as int / 16);
                    } else {
                        lemma_hex_digit_val(b[(i + 1) / 2] as int % 16);
                    }
                }
            }
        }
    }
}

/// Hex rendering is injective: equal renderings come from equal byte strings.
pub proof fn lemma_hex_enc_injective(a: Seq<u8>, b: Seq<u8>)
    requires
        hex_enc(a) == hex_enc(b),
    ensures
        a == b,
{
    assert(hex_enc(a).len() == 2 * a.len());
    assert(hex_enc(b).len() == 2 * b.len());
    assert(a.len() == b.len());
    assert forall|i: int| 0 <= i < a.len() implies a[i] == b[i] by {
        assert((2 * i) % 2 == 0 && (2 * i) / 2 == i);
        assert((2 * i + 1) % 2 == 1 && (2 * i + 1) / 2 == i);
        assert(hex_enc(a)[2 * i] == hex_digit(a[i] as int / 16));
        assert(hex_enc(b)[2 * i] == hex_digit(b[i] as int / 16));
        assert(hex_enc(a)[2 * i + 1] == hex_digit(a[i] as int % 16));
        assert(hex_enc(b)[2 * i + 1] == hex_digit(b[i] as int % 16));
        assert(hex_enc(a)[2 * i] == hex_enc(b)[2 * i]);
        assert(hex_enc(a)[2 * i + 1] == hex_enc(b)[2 * i + 1]);
        lemma_hex_digit_injective(a[i] as int / 16, b[i] as int / 16);
        lemma_hex_digit_injective(a[i] as int % 16, b[i] as int % 16);
    }
    assert(a =~= b);
}

/// Reading back a rendering yields the bytes it was made from.
pub proof fn lemma_hex_round_trip(bytes: Seq<u8>, decoded: Option<Seq<u8>>)
    requires
        match decoded {
            Some(d) => hex_enc(bytes) == hex_enc(d),
            None => forall|b: Seq<u8>| hex_enc(bytes) != hex_enc(b),
        },
    ensures
        decoded == Some(bytes),
{
    match decoded {
        Some(d) => {
            lemma_hex_enc_injective(bytes, d);
        },
        None => {
            assert(hex_enc(bytes) == hex_enc(bytes));
        },
    }
}

} // verus!
