//! The nonlinear mixing step (SP-box) and the lane-wise rotation it uses.
use vstd::prelude::*;

verus! {

/// Circular left rotation of a 32-bit lane by `n` bits, `0 < n < 32`.
pub open spec fn rotl(v: u32, n: u32) -> u32 {
    (v << n) | (v >> ((32 - n) as u32))
}

/// The SP-box on one column: lanes `(a, b, c)` of the three words give `(a', b', c')`.
pub open spec fn sp_lane(a: u32, b: u32, c: u32) -> (u32, u32, u32) {
    let x = rotl(a, 24);
    let y = rotl(b, 9);
    let z = c;
    (
        z ^ y ^ ((x & y) << 3u32),
        y ^ x ^ ((x | z) << 1u32),
        x ^ (z << 1u32) ^ ((y & z) << 2u32),
    )
}

/// The three words `(A, B, C)` of the state, four lanes each.
pub type Words = (Seq<u32>, Seq<u32>, Seq<u32>);

/// The SP-box on the whole state: `sp_lane` applied to each of the four columns.
pub open spec fn sp_words(s: Words) -> Words {
    (
        Seq::new(4, |i: int| sp_lane(s.0[i], s.1[i], s.2[i]).0),
        Seq::new(4, |i: int| sp_lane(s.0[i], s.1[i], s.2[i]).1),
        Seq::new(4, |i: int| sp_lane(s.0[i], s.1[i], s.2[i]).2),
    )
}

/// Rotates each of the four lanes of `x` left by `OFFSET` bits.
fn rotate_left<const OFFSET: u32>(x: [u32; 4]) -> (r: [u32; 4])
    requires
        0 < OFFSET < 32,
    ensures
        forall|i: int| 0 <= i < 4 ==> #[trigger] r[i] == rotl(x[i], OFFSET),
{
    let mut r = [0u32; 4];
    for i in 0..4
        invariant
            0 < OFFSET < 32,
            forall|j: int| 0 <= j < i ==> #[trigger] r[j] == rotl(x[j], OFFSET),
    {
        r[i] = x[i] << OFFSET | x[i] >> (32 - OFFSET);
    }
    r
}

/// Applies the SP-box to the four columns of the words `(x, y, z)`.
pub fn sp_box(x: [u32; 4], y: [u32; 4], z: [u32; 4]) -> (r: ([u32; 4], [u32; 4], [u32; 4]))
    ensures
        (r.0@, r.1@, r.2@) == sp_words((x@, y@, z@)),
{
    let rx = rotate_left::<24>(x);
    let ry = rotate_left::<9>(y);
    let mut a = [0u32; 4];
    let mut b = [0u32; 4];
    let mut c = [0u32; 4];
    for i in 0..4
        invariant
            forall|j: int| 0 <= j < 4 ==> #[trigger] rx[j] == rotl(x[j], 24),
            forall|j: int| 0 <= j < 4 ==> #[trigger] ry[j] == rotl(y[j], 9),
            forall|j: int| 0 <= j < i ==> #[trigger] a[j] == sp_lane(x[j], y[j], z[j]).0,
            forall|j: int| 0 <= j < i ==> #[trigger] b[j] == sp_lane(x[j], y[j], z[j]).1,
            forall|j: int| 0 <= j < i ==> #[trigger] c[j] == sp_lane(x[j], y[j], z[j]).2,
    {
        a[i] = z[i] ^ ry[i] ^ (rx[i] & ry[i]) << 3;
        b[i] = ry[i] ^ rx[i] ^ (rx[i] | z[i]) << 1;
        c[i] = rx[i] ^ z[i] << 1 ^ (ry[i] & z[i]) << 2;
    }
    assert(a@ =~= sp_words((x@, y@, z@)).0);
    assert(b@ =~= sp_words((x@, y@, z@)).1);
    assert(c@ =~= sp_words((x@, y@, z@)).2);
    (a, b, c)
}

} // verus!
