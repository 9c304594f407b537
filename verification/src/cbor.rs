//! The CBOR subset the protocol puts on the wire.
//!
//! Every Relay wire object is built from unsigned integers, byte strings and
//! definite-length arrays, always in the shortest header form. The encoders
//! and the decoders below are exact inverses: the spec-level decoders accept
//! precisely the spec-level encodings, and the executable functions refine
//! them.

use vstd::prelude::*;
use vstd::arithmetic::div_mod::{lemma_div_denominator, lemma_fundamental_div_mod};

verus! {

/// 256 to the power `k`.
pub open spec fn pow256(k: nat) -> nat
    decreases k,
{
    if k == 0 {
        1
    } else {
        256 * pow256((k - 1) as nat)
    }
}

/// The big-endian rendering of `n` in exactly `k` bytes.
pub open spec fn be_enc(n: nat, k: nat) -> Seq<u8>
    decreases k,
{
    if k == 0 {
        Seq::empty()
    } else {
        be_enc(n / 256, (k - 1) as nat) + seq![(n % 256) as u8]
    }
}

/// The value of a big-endian byte string.
pub open spec fn be_val(s: Seq<u8>) -> nat
    decreases s.len(),
{
    if s.len() == 0 {
        0
    } else {
        (be_val(s.drop_last()) * 256 + s.last()) as nat
    }
}

pub proof fn lemma_pow256_values()
    ensures
        pow256(0) == 1,
        pow256(1) == 0x100,
        pow256(2) == 0x10000,
        pow256(3) == 0x1000000,
        pow256(4) == 0x100000000,
        pow256(5) == 0x10000000000,
        pow256(6) == 0x1000000000000,
        pow256(7) == 0x100000000000000,
        pow256(8) == 0x10000000000000000,
{
    assert(pow256(0) == 1);
    assert(pow256(1) == 0x100);
    assert(pow256(2) == 0x10000);
    assert(pow256(3) == 0x1000000);
    assert(pow256(4) == 0x100000000);
    assert(pow256(5) == 0x10000000000);
    assert(pow256(6) == 0x1000000000000);
    assert(pow256(7) == 0x100000000000000);
    assert(pow256(8) == 0x10000000000000000);
}

pub proof fn lemma_be_enc_len(n: nat, k: nat)
    ensures
        be_enc(n, k).len() == k,
    decreases k,
{
    if k > 0 {
        lemma_be_enc_len(n / 256, (k - 1) as nat);
    }
}

/// Reading back a big-endian rendering yields the value.
pub proof fn lemma_be_round_trip(n: nat, k: nat)
    requires
        n < pow256(k),
    ensures
        be_val(be_enc(n, k)) == n,
    decreases k,
{
    if k == 0 {
    } else {
        let s = be_enc(n, k);
        lemma_be_enc_len(n / 256, (k - 1) as nat);
        assert(s.drop_last() =~= be_enc(n / 256, (k - 1) as nat));
        assert(n / 256 < pow256((k - 1) as nat)) by {
            if n / 256 >= pow256((k - 1) as nat) {
                lemma_fundamental_div_mod(n as int, 256);
                assert(n >= 256 * pow256((k - 1) as nat));
            }
        }
        lemma_be_round_trip(n / 256, (k - 1) as nat);
        lemma_fundamental_div_mod(n as int, 256);
    }
}

/// The header of a CBOR item of major type `major` whose argument is `n`,
/// in the shortest form.
pub open spec fn head_enc(major: int, n: nat) -> Seq<u8>
    recommends
        0 <= major < 8,
        n < pow256(8),
{
    if n < 24 {
        seq![(32 * major + n) as u8]
    } else if n < 0x100 {
        seq![(32 * major + 24) as u8] + be_enc(n, 1)
    } else if n < 0x10000 {
        seq![(32 * major + 25) as u8] + be_enc(n, 2)
    } else if n < 0x100000000 {
        seq![(32 * major + 26) as u8] + be_enc(n, 4)
    } else {
        seq![(32 * major + 27) as u8] + be_enc(n, 8)
    }
}

/// An unsigned integer item.
pub open spec fn uint_enc(n: nat) -> Seq<u8> {
    head_enc(0, n)
}

/// A byte-string item.
pub open spec fn bstr_enc(b: Seq<u8>) -> Seq<u8> {
    head_enc(2, b.len() as nat) + b
}

/// The header of an array of `k` items.
pub open spec fn arr_hdr(k: nat) -> Seq<u8> {
    head_enc(4, k)
}

/// Decodes a header at `pos`: the major type, the argument, and the position
/// after the header. Only the shortest header form is accepted.
pub open spec fn head_dec(s: Seq<u8>, pos: int) -> Option<(int, nat, int)> {
    if !(0 <= pos < s.len()) {
        None
    } else {
        let b = s[pos] as int;
        let m = b / 32;
        let ai = b % 32;
        if ai < 24 {
            Some((m, ai as nat, pos + 1))
        } else if ai == 24 {
            if pos + 2 <= s.len() && s[pos + 1] >= 24 {
                Some((m, s[pos + 1] as nat, pos + 2))
            } else {
                None
            }
        } else if ai == 25 {
            if pos + 3 <= s.len() && be_val(s.subrange(pos + 1, pos + 3)) >= 0x100 {
                Some((m, be_val(s.subrange(pos + 1, pos + 3)), pos + 3))
            } else {
                None
            }
        } else if ai == 26 {
            if pos + 5 <= s.len() && be_val(s.subrange(pos + 1, pos + 5)) >= 0x10000 {
                Some((m, be_val(s.subrange(pos + 1, pos + 5)), pos + 5))
            } else {
                None
            }
        } else if ai == 27 {
            if pos + 9 <= s.len() && be_val(s.subrange(pos + 1, pos + 9)) >= 0x100000000 {
                Some((m, be_val(s.subrange(pos + 1, pos + 9)), pos + 9))
            } else {
                None
            }
        } else {
            None
        }
    }
}

/// Decoding a header where an encoded header stands yields exactly what was
/// encoded.
pub proof fn lemma_head_round_trip(s: Seq<u8>, pos: int, major: int, n: nat)
    requires
        0 <= major < 8,
        n < pow256(8),
        0 <= pos,
        pos + head_enc(major, n).len() <= s.len(),
        s.subrange(pos, pos + head_enc(major, n).len()) == head_enc(major, n),
    ensures
        head_dec(s, pos) == Some((major, n, pos + head_enc(major, n).len())),
{
    lemma_pow256_values();
    let h = head_enc(major, n);
    let hl = h.len() as int;
    assert(forall|j: int| 0 <= j < hl ==> s[pos + j] == h[j]) by {
        assert(forall|j: int| 0 <= j < hl ==> #[trigger] s.subrange(pos, pos + hl)[j] == s[pos + j]);
    }
    assert(s[pos] == h[0]) by {
        assert(s[pos + 0] == h[0]);
    }
    if n < 24 {
        assert(s[pos] == (32 * major + n) as u8);
        assert((32 * major + n) / 32 == major && (32 * major + n) % 32 == n) by (nonlinear_arith)
            requires
                0 <= major < 8,
                0 <= n < 24,
        ;
    } else {
        let ai: int = if n < 0x100 {
            24
        } else if n < 0x10000 {
            25
        } else if n < 0x100000000 {
            26
        } else {
            27
        };
        let k: nat = if n < 0x100 {
            1
        } else if n < 0x10000 {
            2
        } else if n < 0x100000000 {
            4
        } else {
            8
        };
        assert(h == seq![(32 * major + ai) as u8] + be_enc(n, k));
        lemma_be_enc_len(n, k);
        assert(hl == 1 + k);
        assert(h[0] == (32 * major + ai) as u8);
        assert(s[pos] == (32 * major + ai) as u8);
        assert((32 * major + ai) / 32 == major && (32 * major + ai) % 32 == ai)
            by (nonlinear_arith)
            requires
                0 <= major < 8,
                24 <= ai < 28,
        ;
        assert(s.subrange(pos + 1, pos + 1 + k) =~= be_enc(n, k)) by {
            assert(forall|j: int| 0 <= j < k ==> #[trigger] s.subrange(pos + 1, pos + 1 + k)[j]
                == s[pos + 1 + j]);
            assert(forall|j: int| 0 <= j < k ==> h[1 + j] == #[trigger] be_enc(n, k)[j]);
        }
        lemma_be_round_trip(n, k);
    }
}

/// Decodes a byte string at `pos`: its contents and the position after it.
pub open spec fn bstr_dec(s: Seq<u8>, pos: int) -> Option<(Seq<u8>, int)> {
    match head_dec(s, pos) {
        Some((m, n, p)) => if m == 2 && p + n <= s.len() {
            Some((s.subrange(p, p + n), p + n))
        } else {
            None
        },
        None => None,
    }
}

/// Decodes an unsigned integer that fits a `u64` at `pos`.
pub open spec fn uint_dec(s: Seq<u8>, pos: int) -> Option<(nat, int)> {
    match head_dec(s, pos) {
        Some((m, n, p)) => if m == 0 {
            Some((n, p))
        } else {
            None
        },
        None => None,
    }
}

/// Decodes an array header of `k` items at `pos`.
pub open spec fn arr_dec(s: Seq<u8>, pos: int) -> Option<(nat, int)> {
    match head_dec(s, pos) {
        Some((m, n, p)) => if m == 4 {
            Some((n, p))
        } else {
            None
        },
        None => None,
    }
}

/// Decoding a byte string where an encoded one stands yields its contents.
pub proof fn lemma_bstr_round_trip(s: Seq<u8>, pos: int, b: Seq<u8>)
    requires
        b.len() < pow256(8),
        0 <= pos,
        pos + bstr_enc(b).len() <= s.len(),
        s.subrange(pos, pos + bstr_enc(b).len()) == bstr_enc(b),
    ensures
        bstr_dec(s, pos) == Some((b, pos + bstr_enc(b).len())),
{
    let e = bstr_enc(b);
    let h = head_enc(2, b.len() as nat);
    let hl = h.len() as int;
    assert(forall|j: int| 0 <= j < e.len() ==> s[pos + j] == e[j]) by {
        assert(forall|j: int| 0 <= j < e.len() ==> #[trigger] s.subrange(pos, pos + e.len())[j]
            == s[pos + j]);
    }
    assert(s.subrange(pos, pos + hl) =~= h) by {
        assert(forall|j: int| 0 <= j < hl ==> #[trigger] s.subrange(pos, pos + hl)[j] == s[pos
            + j]);
        assert(forall|j: int| 0 <= j < hl ==> e[j] == h[j]);
    }
    lemma_head_round_trip(s, pos, 2, b.len() as nat);
    assert(s.subrange(pos + hl, pos + hl + b.len()) =~= b) by {
        assert(forall|j: int| 0 <= j < b.len() ==> #[trigger] s.subrange(pos + hl, pos + hl
            + b.len())[j] == s[pos + hl + j]);
        assert(forall|j: int| 0 <= j < b.len() ==> e[hl + j] == b[j]);
    }
}

/// Decoding an integer where an encoded one stands yields the value.
pub proof fn lemma_uint_round_trip(s: Seq<u8>, pos: int, n: nat)
    requires
        n < pow256(8),
        0 <= pos,
        pos + uint_enc(n).len() <= s.len(),
        s.subrange(pos, pos + uint_enc(n).len()) == uint_enc(n),
    ensures
        uint_dec(s, pos) == Some((n, pos + uint_enc(n).len())),
{
    lemma_head_round_trip(s, pos, 0, n);
}

/// Decoding an array header where an encoded one stands yields the count.
pub proof fn lemma_arr_round_trip(s: Seq<u8>, pos: int, k: nat)
    requires
        k < pow256(8),
        0 <= pos,
        pos + arr_hdr(k).len() <= s.len(),
        s.subrange(pos, pos + arr_hdr(k).len()) == arr_hdr(k),
    ensures
        arr_dec(s, pos) == Some((k, pos + arr_hdr(k).len())),
{
    lemma_head_round_trip(s, pos, 4, k);
}

/// A header takes between one and nine bytes.
pub proof fn lemma_head_enc_len(major: int, n: nat)
    ensures
        1 <= head_enc(major, n).len() <= 9,
{
    if n < 24 {
    } else if n < 0x100 {
        lemma_be_enc_len(n, 1);
    } else if n < 0x10000 {
        lemma_be_enc_len(n, 2);
    } else if n < 0x100000000 {
        lemma_be_enc_len(n, 4);
    } else {
        lemma_be_enc_len(n, 8);
    }
}

/// Appends the big-endian rendering of `n` in `k` bytes.
fn write_be(out: &mut Vec<u8>, n: u64, k: usize)
    requires
        1 <= k <= 8,
        n < pow256(k as nat),
        old(out)@.len() + k <= usize::MAX,
    ensures
        final(out)@ == old(out)@ + be_enc(n as nat, k as nat),
{
    proof {
        lemma_pow256_values();
    }
    if k >= 8 {
        out.push((n / 0x100000000000000) as u8);
    }
    if k >= 7 {
        out.push(((n / 0x1000000000000) % 0x100) as u8);
    }
    if k >= 6 {
        out.push(((n / 0x10000000000) % 0x100) as u8);
    }
    if k >= 5 {
        out.push(((n / 0x100000000) % 0x100) as u8);
    }
    if k >= 4 {
        out.push(((n / 0x1000000) % 0x100) as u8);
    }
    if k >= 3 {
        out.push(((n / 0x10000) % 0x100) as u8);
    }
    if k >= 2 {
        out.push(((n / 0x100) % 0x100) as u8);
    }
    out.push((n % 0x100) as u8);
    proof {
        lemma_be_enc_unfold(n as nat, k as nat);
        assert(out@ =~= old(out)@ + be_enc(n as nat, k as nat));
    }
}

/// Each byte of a big-endian rendering, written out.
proof fn lemma_be_enc_unfold(n: nat, k: nat)
    requires
        1 <= k <= 8,
        n < pow256(k),
    ensures
        be_enc(n, k).len() == k,
        forall|i: int|
            0 <= i < k ==> be_enc(n, k)[i] == ((n / pow256((k - 1 - i) as nat)) % 256) as u8,
    decreases k,
{
    lemma_be_enc_len(n, k);
    lemma_pow256_values();
    if k == 1 {
        assert(be_enc(n, 1) =~= seq![(n % 256) as u8]);
        assert(n / pow256(0) == n);
    } else {
        assert(n / 256 < pow256((k - 1) as nat)) by {
            if n / 256 >= pow256((k - 1) as nat) {
                lemma_fundamental_div_mod(n as int, 256);
            }
        }
        lemma_be_enc_unfold(n / 256, (k - 1) as nat);
        lemma_be_enc_len(n / 256, (k - 1) as nat);
        assert forall|i: int| 0 <= i < k implies be_enc(n, k)[i] == ((n / pow256(
            (k - 1 - i) as nat,
        )) % 256) as u8 by {
            if i < k - 1 {
                assert(be_enc(n, k)[i] == be_enc(n / 256, (k - 1) as nat)[i]);
                let j = (k - 1 - i - 1) as nat;
                assert((n / 256) / pow256(j) == n / (256 * pow256(j))) by {
                    lemma_div_denominator(n as int, 256, pow256(j) as int);
                }
                assert(256 * pow256(j) == pow256((j + 1) as nat));
            } else {
                assert(be_enc(n, k)[i] == (n % 256) as u8);
                assert(n / pow256(0) == n);
            }
        }
    }
}

/// Appends the shortest header of major type `major` with argument `n`.
pub fn write_head(out: &mut Vec<u8>, major: u8, n: u64)
    requires
        major < 8,
        old(out)@.len() + 9 <= usize::MAX,
    ensures
        final(out)@ == old(out)@ + head_enc(major as int, n as nat),
{
    proof {
        lemma_pow256_values();
    }
    if n < 24 {
        out.push(32 * major + (n as u8));
        proof {
            assert(out@ =~= old(out)@ + head_enc(major as int, n as nat));
        }
    } else if n < 0x100 {
        out.push(32 * major + 24);
        write_be(out, n, 1);
        proof {
            assert(out@ =~= old(out)@ + head_enc(major as int, n as nat));
        }
    } else if n < 0x10000 {
        out.push(32 * major + 25);
        write_be(out, n, 2);
        proof {
            assert(out@ =~= old(out)@ + head_enc(major as int, n as nat));
        }
    } else if n < 0x100000000 {
        out.push(32 * major + 26);
        write_be(out, n, 4);
        proof {
            assert(out@ =~= old(out)@ + head_enc(major as int, n as nat));
        }
    } else {
        out.push(32 * major + 27);
        write_be(out, n, 8);
        proof {
            assert(out@ =~= old(out)@ + head_enc(major as int, n as nat));
        }
    }
}

/// Appends an unsigned-integer item.
pub fn write_uint(out: &mut Vec<u8>, n: u64)
    requires
        old(out)@.len() + 9 <= usize::MAX,
    ensures
        final(out)@ == old(out)@ + uint_enc(n as nat),
{
    write_head(out, 0, n);
}

/// Appends a byte-string item.
pub fn write_bstr(out: &mut Vec<u8>, b: &Vec<u8>)
    requires
        old(out)@.len() + 9 + b@.len() <= usize::MAX,
    ensures
        final(out)@ == old(out)@ + bstr_enc(b@),
{
    write_head(out, 2, b.len() as u64);
    proof {
        lemma_head_enc_len(2, b@.len() as nat);
    }
    crate::bytes::append_bytes(out, b);
    proof {
        assert(out@ =~= old(out)@ + bstr_enc(b@));
    }
}

/// Appends the header of an array of `k` items.
pub fn write_arr_hdr(out: &mut Vec<u8>, k: u64)
    requires
        old(out)@.len() + 9 <= usize::MAX,
    ensures
        final(out)@ == old(out)@ + arr_hdr(k as nat),
{
    write_head(out, 4, k);
}

/// Reads `k` big-endian bytes at `pos`.
fn read_be(s: &Vec<u8>, pos: usize, k: usize) -> (r: u64)
    requires
        1 <= k <= 8,
        pos + k <= s@.len(),
        s@.len() <= usize::MAX,
    ensures
        r as nat == be_val(s@.subrange(pos as int, pos + k)),
{
    proof {
        lemma_pow256_values();
    }
    let mut acc: u64 = 0;
    let mut j: usize = 0;
    while j < k
        invariant
            1 <= k <= 8,
            pos + k <= s@.len(),
            s@.len() <= usize::MAX,
            j <= k,
            acc as nat == be_val(s@.subrange(pos as int, pos + j)),
            acc < pow256(j as nat),
            pow256(8) == 0x10000000000000000,
        decreases k - j,
    {
        proof {
            lemma_pow256_values();
            lemma_pow256_mono(j as nat, 7);
            assert(acc < pow256(7));
        }
        let b = s[pos + j];
        acc = acc * 256 + (b as u64);
        proof {
            let sub = s@.subrange(pos as int, pos + j + 1);
            assert(sub.drop_last() =~= s@.subrange(pos as int, pos + j));
            assert(sub.last() == s@[pos + j]);
        }
        j = j + 1;
    }
    proof {
        assert(s@.subrange(pos as int, pos + k) == s@.subrange(pos as int, pos + j));
    }
    acc
}

proof fn lemma_pow256_mono(a: nat, b: nat)
    requires
        a <= b,
    ensures
        pow256(a) <= pow256(b),
    decreases b,
{
    if a < b {
        lemma_pow256_mono(a, (b - 1) as nat);
    }
}

/// Reads a header at `pos`. Returns the major type, the argument and the
/// position after the header; `None` exactly where the spec decoder refuses.
pub fn read_head(s: &Vec<u8>, pos: usize) -> (r: Option<(u8, u64, usize)>)
    requires
        s@.len() <= usize::MAX - 9,
    ensures
        match r {
            Some((m, v, p)) => head_dec(s@, pos as int) == Some((m as int, v as nat, p as int)),
            None => head_dec(s@, pos as int) is None,
        },
{
    proof {
        lemma_pow256_values();
    }
    if pos >= s.len() {
        return None;
    }
    let b = s[pos];
    let m = b / 32;
    let ai = b % 32;
    if ai < 24 {
        Some((m, ai as u64, pos + 1))
    } else if ai == 24 {
        if pos + 2 <= s.len() {
            let v = s[pos + 1];
            if v >= 24 {
                Some((m, v as u64, pos + 2))
            } else {
                None
            }
        } else {
            None
        }
    } else if ai == 25 {
        if pos + 3 <= s.len() {
            let v = read_be(s, pos + 1, 2);
            if v >= 0x100 {
                Some((m, v, pos + 3))
            } else {
                None
            }
        } else {
            None
        }
    } else if ai == 26 {
        if pos + 5 <= s.len() {
            let v = read_be(s, pos + 1, 4);
            if v >= 0x10000 {
                Some((m, v, pos + 5))
            } else {
                None
            }
        } else {
            None
        }
    } else if ai == 27 {
        if pos + 9 <= s.len() {
            let v = read_be(s, pos + 1, 8);
            if v >= 0x100000000 {
                Some((m, v, pos + 9))
            } else {
                None
            }
        } else {
            None
        }
    } else {
        None
    }
}

/// Reads a byte-string item at `pos`: its contents and the position after.
pub fn read_bstr(s: &Vec<u8>, pos: usize) -> (r: Option<(Vec<u8>, usize)>)
    requires
        s@.len() <= usize::MAX - 9,
    ensures
        match r {
            Some((b, p)) => bstr_dec(s@, pos as int) == Some((b@, p as int)),
            None => bstr_dec(s@, pos as int) is None,
        },
{
    match read_head(s, pos) {
        Some((m, n, p)) => {
            if m == 2 && n <= (s.len() - p) as u64 {
                let e = p + (n as usize);
                let b = crate::bytes::slice_range(s, p, e);
                Some((b, e))
            } else {
                None
            }
        },
        None => None,
    }
}

/// Reads an unsigned-integer item at `pos`.
pub fn read_uint(s: &Vec<u8>, pos: usize) -> (r: Option<(u64, usize)>)
    requires
        s@.len() <= usize::MAX - 9,
    ensures
        match r {
            Some((n, p)) => uint_dec(s@, pos as int) == Some((n as nat, p as int)),
            None => uint_dec(s@, pos as int) is None,
        },
{
    match read_head(s, pos) {
        Some((m, n, p)) => {
            if m == 0 {
                Some((n, p))
            } else {
                None
            }
        },
        None => None,
    }
}

/// Reads an array header at `pos`.
pub fn read_arr_hdr(s: &Vec<u8>, pos: usize) -> (r: Option<(u64, usize)>)
    requires
        s@.len() <= usize::MAX - 9,
    ensures
        match r {
            Some((n, p)) => arr_dec(s@, pos as int) == Some((n as nat, p as int)),
            None => arr_dec(s@, pos as int) is None,
        },
{
    match read_head(s, pos) {
        Some((m, n, p)) => {
            if m == 4 {
                Some((n, p))
            } else {
                None
            }
        },
        None => None,
    }
}

} // verus!
