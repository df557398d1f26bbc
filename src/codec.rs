//! The state codec: 48 bytes to three words of four little-endian lanes, and back.
use vstd::prelude::*;
use crate::mixing::Words;

verus! {

/// Number of bytes in the state.
pub const STATE_BYTES: usize = 48;

/// The little-endian 32-bit lane held by bytes `4k .. 4k + 4` of `b`.
pub open spec fn le_word(b: Seq<u8>, k: int) -> u32 {
    (b[4 * k] as u32) | ((b[4 * k + 1] as u32) << 8u32) | ((b[4 * k + 2] as u32) << 16u32) | ((
    b[4 * k + 3] as u32) << 24u32)
}

/// Byte `j` (0 the least significant) of the lane `w`.
pub open spec fn le_byte(w: u32, j: int) -> u8 {
    ((w >> ((8 * j) as u32)) & 0xffu32) as u8
}

/// The three words are four lanes each.
pub open spec fn words_wf(s: Words) -> bool {
    s.0.len() == 4 && s.1.len() == 4 && s.2.len() == 4
}

/// Lane `k` of the twelve, counted through `A`, then `B`, then `C`.
pub open spec fn word_at(s: Words, k: int) -> u32 {
    if k < 4 {
        s.0[k]
    } else if k < 8 {
        s.1[k - 4]
    } else {
        s.2[k - 8]
    }
}

/// Bytes 0–15 become `A`, 16–31 `B` and 32–47 `C`, each 4-byte chunk one little-endian lane.
pub open spec fn unpack_spec(b: Seq<u8>) -> Words {
    (
        Seq::new(4, |i: int| le_word(b, i)),
        Seq::new(4, |i: int| le_word(b, i + 4)),
        Seq::new(4, |i: int| le_word(b, i + 8)),
    )
}

/// The 48 bytes that hold the words `s`, lane by lane in little-endian order.
pub open spec fn pack_spec(s: Words) -> Seq<u8> {
    Seq::new(48, |i: int| le_byte(word_at(s, i / 4), i % 4))
}

proof fn lemma_bytes_word_bytes(b0: u8, b1: u8, b2: u8, b3: u8)
    by (bit_vector)
    ensures
        ((((b0 as u32) | ((b1 as u32) << 8u32) | ((b2 as u32) << 16u32) | ((b3 as u32) << 24u32))
            >> 0u32) & 0xffu32) as u8 == b0,
        ((((b0 as u32) | ((b1 as u32) << 8u32) | ((b2 as u32) << 16u32) | ((b3 as u32) << 24u32))
            >> 8u32) & 0xffu32) as u8 == b1,
        ((((b0 as u32) | ((b1 as u32) << 8u32) | ((b2 as u32) << 16u32) | ((b3 as u32) << 24u32))
            >> 16u32) & 0xffu32) as u8 == b2,
        ((((b0 as u32) | ((b1 as u32) << 8u32) | ((b2 as u32) << 16u32) | ((b3 as u32) << 24u32))
            >> 24u32) & 0xffu32) as u8 == b3,
{
}

proof fn lemma_word_bytes_word(w: u32)
    by (bit_vector)
    ensures
        w == ((((w >> 0u32) & 0xffu32) as u8) as u32) | (((((w >> 8u32) & 0xffu32) as u8) as u32)
            << 8u32) | (((((w >> 16u32) & 0xffu32) as u8) as u32) << 16u32) | (((((w >> 24u32)
            & 0xffu32) as u8) as u32) << 24u32),
{
}

/// Packing what was unpacked gives back the same 48 bytes.
pub proof fn lemma_pack_unpack(x: Seq<u8>)
    requires
        x.len() == 48,
    ensures
        pack_spec(unpack_spec(x)) == x,
{
    let s = unpack_spec(x);
    assert forall|i: int| 0 <= i < 48 implies #[trigger] pack_spec(s)[i] == x[i] by {
        let k = i / 4;
        let j = i % 4;
        assert(0 <= k < 12 && 0 <= j < 4 && i == 4 * k + j) by (nonlinear_arith)
            requires
                0 <= i < 48,
                k == i / 4,
                j == i % 4,
        ;
        assert(word_at(s, k) == le_word(x, k));
        lemma_bytes_word_bytes(x[4 * k], x[4 * k + 1], x[4 * k + 2], x[4 * k + 3]);
    }
    assert(pack_spec(s) =~= x);
}

/// Unpacking what was packed gives back the same three words.
pub proof fn lemma_unpack_pack(s: Words)
    requires
        words_wf(s),
    ensures
        unpack_spec(pack_spec(s)) == s,
{
    let b = pack_spec(s);
    assert forall|k: int| 0 <= k < 12 implies #[trigger] le_word(b, k) == word_at(s, k) by {
        assert((4 * k) / 4 == k && (4 * k) % 4 == 0) by (nonlinear_arith);
        assert((4 * k + 1) / 4 == k && (4 * k + 1) % 4 == 1) by (nonlinear_arith);
        assert((4 * k + 2) / 4 == k && (4 * k + 2) % 4 == 2) by (nonlinear_arith);
        assert((4 * k + 3) / 4 == k && (4 * k + 3) % 4 == 3) by (nonlinear_arith);
        assert(b[4 * k] == le_byte(word_at(s, k), 0));
        assert(b[4 * k + 1] == le_byte(word_at(s, k), 1));
        assert(b[4 * k + 2] == le_byte(word_at(s, k), 2));
        assert(b[4 * k + 3] == le_byte(word_at(s, k), 3));
        lemma_word_bytes_word(word_at(s, k));
    }
    let u = unpack_spec(b);
    assert(u.0 =~= s.0);
    assert forall|i: int| 0 <= i < 4 implies u.1[i] == s.1[i] by {
        assert(le_word(b, i + 4) == word_at(s, i + 4));
    }
    assert forall|i: int| 0 <= i < 4 implies u.2[i] == s.2[i] by {
        assert(le_word(b, i + 8) == word_at(s, i + 8));
    }
    assert(u.1 =~= s.1);
    assert(u.2 =~= s.2);
}

/// Reads lane `k` (of twelve) out of the state bytes.
fn load_word(bytes: &[u8; 48], k: usize) -> (r: u32)
    requires
        k < 12,
    ensures
        r == le_word(bytes@, k as int),
{
    let p = 4 * k;
    (bytes[p] as u32) | ((bytes[p + 1] as u32) << 8) | ((bytes[p + 2] as u32) << 16) | ((bytes[p
        + 3] as u32) << 24)
}

/// Writes the lane `w` into bytes `4k .. 4k + 4`, leaving the others as they were.
fn store_word(out: &mut [u8; 48], k: usize, w: u32)
    requires
        k < 12,
    ensures
        forall|p: int|
            0 <= p < 48 ==> #[trigger] final(out)[p] == if 4 * k <= p < 4 * k + 4 {
                le_byte(w, p - 4 * k)
            } else {
                old(out)[p]
            },
{
    let p = 4 * k;
    out[p] = (w & 0xff) as u8;
    out[p + 1] = ((w >> 8) & 0xff) as u8;
    out[p + 2] = ((w >> 16) & 0xff) as u8;
    out[p + 3] = ((w >> 24) & 0xff) as u8;
    assert(w >> 0u32 == w) by (bit_vector);
}

/// Splits the 48 state bytes into the words `(A, B, C)`.
pub fn unpack(bytes: &[u8; 48]) -> (r: ([u32; 4], [u32; 4], [u32; 4]))
    ensures
        (r.0@, r.1@, r.2@) == unpack_spec(bytes@),
{
    let mut a = [0u32; 4];
    let mut b = [0u32; 4];
    let mut c = [0u32; 4];
    for i in 0..4
        invariant
            forall|j: int| 0 <= j < i ==> #[trigger] a[j] == le_word(bytes@, j),
            forall|j: int| 0 <= j < i ==> #[trigger] b[j] == le_word(bytes@, j + 4),
            forall|j: int| 0 <= j < i ==> #[trigger] c[j] == le_word(bytes@, j + 8),
    {
        a[i] = load_word(bytes, i);
        b[i] = load_word(bytes, i + 4);
        c[i] = load_word(bytes, i + 8);
    }
    assert(a@ =~= unpack_spec(bytes@).0);
    assert(b@ =~= unpack_spec(bytes@).1);
    assert(c@ =~= unpack_spec(bytes@).2);
    (a, b, c)
}

/// Joins the words `(A, B, C)` into the 48 state bytes.
pub fn pack(a: [u32; 4], b: [u32; 4], c: [u32; 4]) -> (r: [u8; 48])
    ensures
        r@ == pack_spec((a@, b@, c@)),
{
    let ghost s = (a@, b@, c@);
    let mut out = [0u8; 48];
    for k in 0..12
        invariant
            s == (a@, b@, c@),
            forall|p: int| 0 <= p < 4 * k ==> #[trigger] out[p] == pack_spec(s)[p],
    {
        let w = if k < 4 {
            a[k]
        } else if k < 8 {
            b[k - 4]
        } else {
            c[k - 8]
        };
        assert(w == word_at(s, k as int));
        let ghost before = out;
        store_word(&mut out, k, w);
        assert forall|p: int| 0 <= p < 4 * (k + 1) implies #[trigger] out[p] == pack_spec(s)[p] by {
            if p >= 4 * k {
                assert(p / 4 == k && p % 4 == p - 4 * k) by (nonlinear_arith)
                    requires
                        4 * k <= p < 4 * k + 4,
                ;
            } else {
                assert(out[p] == before[p]);
            }
        }
    }
    assert(out@ =~= pack_spec(s));
    out
}

} // verus!
