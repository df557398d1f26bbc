//! The round schedule and the 48-byte state that it permutes in place.
use vstd::prelude::*;
use crate::codec::{pack, pack_spec, unpack, unpack_spec, STATE_BYTES};
use crate::mixing::{sp_box, sp_words, Words};

verus! {

/// The constants injected into lane 0 of `A`, one per big round, in order.
pub const ROUND_CONSTANTS: [u32; 6] = [
    0x9e377918,
    0x9e377914,
    0x9e377910,
    0x9e37790c,
    0x9e377908,
    0x9e377904,
];

/// Round constant `i`, for `0 <= i < 6`; the same table as `ROUND_CONSTANTS`.
pub open spec fn round_constant(i: int) -> u32 {
    if i == 0 {
        0x9e377918
    } else if i == 1 {
        0x9e377914
    } else if i == 2 {
        0x9e377910
    } else if i == 3 {
        0x9e37790c
    } else if i == 4 {
        0x9e377908
    } else {
        0x9e377904
    }
}

/// The small swap: lanes `[w0, w1, w2, w3]` become `[w1, w0, w3, w2]`.
pub open spec fn swap_pairs(a: Seq<u32>) -> Seq<u32> {
    seq![a[1], a[0], a[3], a[2]]
}

/// The big swap: lanes `[w0, w1, w2, w3]` become `[w2, w3, w0, w1]`.
pub open spec fn swap_halves(a: Seq<u32>) -> Seq<u32> {
    seq![a[2], a[3], a[0], a[1]]
}

/// XORs `rc` into lane 0, leaving lanes 1 to 3 as they are.
pub open spec fn inject_constant(a: Seq<u32>, rc: u32) -> Seq<u32> {
    a.update(0, a[0] ^ rc)
}

/// One big round with constant `rc`: mix, small swap and constant, mix, mix, big swap, mix.
pub open spec fn big_round_spec(s: Words, rc: u32) -> Words {
    let s1 = sp_words(s);
    let s2 = (inject_constant(swap_pairs(s1.0), rc), s1.1, s1.2);
    let s3 = sp_words(sp_words(s2));
    sp_words((swap_halves(s3.0), s3.1, s3.2))
}

/// The words after the first `n` big rounds.
pub open spec fn rounds(s: Words, n: nat) -> Words
    decreases n,
{
    if n == 0 {
        s
    } else {
        big_round_spec(rounds(s, (n - 1) as nat), round_constant(n - 1))
    }
}

/// The permutation on the words: six big rounds, 24 mixing steps.
pub open spec fn permute_words(s: Words) -> Words {
    rounds(s, 6)
}

/// The permutation on the 48 state bytes.
pub open spec fn permute_spec(b: Seq<u8>) -> Seq<u8> {
    pack_spec(permute_words(unpack_spec(b)))
}

/// The state bytes after `n` successive permutations.
pub open spec fn permute_times(b: Seq<u8>, n: nat) -> Seq<u8>
    decreases n,
{
    if n == 0 {
        b
    } else {
        permute_spec(permute_times(b, (n - 1) as nat))
    }
}

/// Swaps lanes 0 and 1, and lanes 2 and 3.
fn small_swap(x: [u32; 4]) -> (r: [u32; 4])
    ensures
        r@ == swap_pairs(x@),
{
    let r = [x[1], x[0], x[3], x[2]];
    assert(r@ =~= swap_pairs(x@));
    r
}

/// Swaps lanes 0 and 1 with lanes 2 and 3.
fn big_swap(x: [u32; 4]) -> (r: [u32; 4])
    ensures
        r@ == swap_halves(x@),
{
    let r = [x[2], x[3], x[0], x[1]];
    assert(r@ =~= swap_halves(x@));
    r
}

/// One big round of the schedule, with round constant `rc`.
fn big_round(x: [u32; 4], y: [u32; 4], z: [u32; 4], rc: u32) -> (r: (
    [u32; 4],
    [u32; 4],
    [u32; 4],
))
    ensures
        (r.0@, r.1@, r.2@) == big_round_spec((x@, y@, z@), rc),
{
    let (x, y, z) = sp_box(x, y, z);
    let mut x = small_swap(x);
    x[0] = x[0] ^ rc;
    let (x, y, z) = sp_box(x, y, z);
    let (x, y, z) = sp_box(x, y, z);
    let x = big_swap(x);
    sp_box(x, y, z)
}

/// The 384-bit Gimli state, as the 48 bytes that callers read and replace.
#[derive(Clone, Copy, Debug, PartialEq, Eq)]
pub struct Gimli(pub [u8; 48]);

/// Why a state could not be built.
#[derive(Clone, Copy, Debug, PartialEq, Eq)]
pub enum GimliError {
    /// The byte source did not hold exactly 48 bytes.
    InvalidLength,
}

impl Gimli {
    /// The all-zero state.
    pub fn new() -> (r: Self)
        ensures
            r.0@ == Seq::new(48, |i: int| 0u8),
    {
        let r = Gimli([0; 48]);
        assert(r.0@ =~= Seq::new(48, |i: int| 0u8));
        r
    }

    /// A state holding a copy of `bytes`, which must be exactly 48 bytes long.
    pub fn from_slice(bytes: &[u8]) -> (r: Result<Self, GimliError>)
        ensures
            match r {
                Ok(g) => bytes@.len() == 48 && g.0@ == bytes@,
                Err(e) => bytes@.len() != 48 && e == GimliError::InvalidLength,
            },
    {
        if bytes.len() != STATE_BYTES {
            return Err(GimliError::InvalidLength);
        }
        let mut buf = [0u8; 48];
        for i in 0..48
            invariant
                bytes@.len() == 48,
                forall|j: int| 0 <= j < i ==> #[trigger] buf[j] == bytes@[j],
        {
            buf[i] = bytes[i];
        }
        assert(buf@ =~= bytes@);
        Ok(Gimli(buf))
    }

    /// Applies the permutation to the state in place: six big rounds of the schedule.
    pub fn permute(&mut self)
        ensures
            final(self).0@ == permute_spec(old(self).0@),
    {
        let (mut x, mut y, mut z) = unpack(&self.0);
        let ghost s0 = (x@, y@, z@);
        for i in 0..6
            invariant
                (x@, y@, z@) == rounds(s0, i as nat),
        {
            let rc = ROUND_CONSTANTS[i];
            assert(rc == round_constant(i as int));
            let r = big_round(x, y, z, rc);
            x = r.0;
            y = r.1;
            z = r.2;
        }
        self.0 = pack(x, y, z);
    }
}

} // verus!
