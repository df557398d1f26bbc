use gimli::codec::{pack, unpack};
use gimli::mixing::sp_box;
use gimli::{Gimli, GimliError};

#[test]
fn it_works() {
    {
        let mut gimli = Gimli::new();

        for _ in 0..384 {
            gimli.permute();
        }

        assert_eq!(
            gimli.0,
            [
                0xf7, 0xb2, 0xd5, 0x86, 0x5e, 0x79, 0x28, 0x27, 0xcb, 0xad, 0xe4, 0x14, 0x07,
                0x5f, 0x6e, 0x3e, 0x40, 0x8a, 0xcc, 0x2f, 0xdb, 0xb7, 0xbb, 0x56, 0x47, 0x08,
                0x9c, 0xf4, 0xef, 0xc6, 0xc1, 0x23, 0xf1, 0x21, 0x5b, 0x75, 0x22, 0x2c, 0x72,
                0x85, 0xb8, 0xdb, 0x63, 0x01, 0xe9, 0x0a, 0x73, 0x0c,
            ]
        );
    }
}

fn words_to_bytes(w: [u32; 12]) -> [u8; 48] {
    let mut b = [0u8; 48];
    for (k, word) in w.iter().enumerate() {
        b[4 * k..4 * k + 4].copy_from_slice(&word.to_le_bytes());
    }
    b
}

fn bytes_to_words(b: &[u8; 48]) -> [u32; 12] {
    let mut w = [0u32; 12];
    for k in 0..12 {
        w[k] = u32::from_le_bytes([b[4 * k], b[4 * k + 1], b[4 * k + 2], b[4 * k + 3]]);
    }
    w
}

#[test]
fn reference_words_vector() {
    let mut input = [0u32; 12];
    for i in 0..12u32 {
        input[i as usize] = i
            .wrapping_mul(i)
            .wrapping_mul(i)
            .wrapping_add(i.wrapping_mul(0x9e3779b9));
    }
    assert_eq!(
        input,
        [
            0x00000000, 0x9e3779ba, 0x3c6ef37a, 0xdaa66d46, 0x78dde724, 0x1715611a, 0xb54cdb2e,
            0x53845566, 0xf1bbcfc8, 0x8ff34a5a, 0x2e2ac522, 0xcc624026,
        ]
    );
    let mut g = Gimli(words_to_bytes(input));
    g.permute();
    assert_eq!(
        bytes_to_words(&g.0),
        [
            0xba11c85a, 0x91bad119, 0x380ce880, 0xd24c2c68, 0x3eceffea, 0x277a921c, 0x4f73a0bd,
            0xda5a9cd8, 0x84b673f0, 0x34e52ff7, 0x9e2bef49, 0xf41bb8d6,
        ]
    );
}

#[test]
fn new_state_is_all_zero() {
    assert_eq!(Gimli::new().0, [0u8; 48]);
}

#[test]
fn one_permute_of_zero_state_changes_it() {
    let mut g = Gimli::new();
    g.permute();
    assert_ne!(g.0, [0u8; 48]);
    let mut twice = g;
    twice.permute();
    assert_ne!(twice.0, g.0);
}

#[test]
fn from_slice_accepts_exactly_48_bytes() {
    let bytes: Vec<u8> = (0..48u8).collect();
    let g = Gimli::from_slice(&bytes).unwrap();
    assert_eq!(g.0.to_vec(), bytes);
}

#[test]
fn from_slice_rejects_47_bytes() {
    let bytes = vec![0xabu8; 47];
    assert_eq!(Gimli::from_slice(&bytes), Err(GimliError::InvalidLength));
}

#[test]
fn from_slice_rejects_49_bytes() {
    let bytes = vec![0xabu8; 49];
    assert_eq!(Gimli::from_slice(&bytes), Err(GimliError::InvalidLength));
}

#[test]
fn from_slice_rejects_empty() {
    assert_eq!(Gimli::from_slice(&[]), Err(GimliError::InvalidLength));
}

#[test]
fn unpack_reads_little_endian_lanes() {
    let mut bytes = [0u8; 48];
    for (i, b) in bytes.iter_mut().enumerate() {
        *b = i as u8;
    }
    let (a, b, c) = unpack(&bytes);
    assert_eq!(a, [0x03020100, 0x07060504, 0x0b0a0908, 0x0f0e0d0c]);
    assert_eq!(b, [0x13121110, 0x17161514, 0x1b1a1918, 0x1f1e1d1c]);
    assert_eq!(c, [0x23222120, 0x27262524, 0x2b2a2928, 0x2f2e2d2c]);
}

#[test]
fn codec_round_trips() {
    let mut bytes = [0u8; 48];
    for (i, b) in bytes.iter_mut().enumerate() {
        *b = (i as u8).wrapping_mul(37).wrapping_add(11);
    }
    let (a, b, c) = unpack(&bytes);
    assert_eq!(pack(a, b, c), bytes);

    let a = [0xdeadbeef, 0x00000001, 0x80000000, 0x12345678];
    let b = [0xffffffff, 0, 0x9e3779b9, 0x0badf00d];
    let c = [7, 0x01020304, 0xa5a5a5a5, 0x5a5a5a5a];
    let packed = pack(a, b, c);
    assert_eq!(&packed[0..4], &[0xef, 0xbe, 0xad, 0xde]);
    assert_eq!(unpack(&packed), (a, b, c));
}

#[test]
fn sp_box_single_bit_of_a() {
    let (a, b, c) = sp_box([1, 0, 0, 0], [0; 4], [0; 4]);
    assert_eq!(a, [0, 0, 0, 0]);
    assert_eq!(b, [0x03000000, 0, 0, 0]);
    assert_eq!(c, [0x01000000, 0, 0, 0]);
}

#[test]
fn sp_box_single_bit_of_c() {
    let (a, b, c) = sp_box([0; 4], [0; 4], [0, 0, 0, 1]);
    assert_eq!(a, [0, 0, 0, 1]);
    assert_eq!(b, [0, 0, 0, 2]);
    assert_eq!(c, [0, 0, 0, 2]);
}

#[test]
fn sp_box_shift_discards_high_bits() {
    // z << 1 drops bit 31 of c rather than wrapping it into bit 0.
    let (a, b, c) = sp_box([0; 4], [0; 4], [0x80000000, 0, 0, 0]);
    assert_eq!(a, [0x80000000, 0, 0, 0]);
    assert_eq!(b, [0, 0, 0, 0]);
    assert_eq!(c, [0, 0, 0, 0]);
}

#[test]
fn equal_start_gives_equal_outputs() {
    let bytes: Vec<u8> = (0..48u8).map(|i| i ^ 0x5c).collect();
    let mut g1 = Gimli::from_slice(&bytes).unwrap();
    let mut g2 = Gimli::from_slice(&bytes).unwrap();
    for _ in 0..7 {
        g1.permute();
        g2.permute();
        assert_eq!(g1.0, g2.0);
    }
}

fn next_random(seed: &mut u64) -> u64 {
    *seed ^= *seed << 13;
    *seed ^= *seed >> 7;
    *seed ^= *seed << 17;
    *seed
}

#[test]
fn single_bit_flip_changes_about_half_the_bits() {
    let mut seed: u64 = 0x0123456789abcdef;
    let trials = 200;
    let mut total: u64 = 0;
    for _ in 0..trials {
        let mut base = [0u8; 48];
        for b in base.iter_mut() {
            *b = next_random(&mut seed) as u8;
        }
        let bit = (next_random(&mut seed) % 384) as usize;
        let mut flipped = base;
        flipped[bit / 8] ^= 1 << (bit % 8);
        let mut g1 = Gimli(base);
        let mut g2 = Gimli(flipped);
        g1.permute();
        g2.permute();
        let diff: u32 = g1.0.iter().zip(g2.0.iter()).map(|(x, y)| (x ^ y).count_ones()).sum();
        total += diff as u64;
    }
    let average = total / trials;
    assert!((176..=208).contains(&average), "average {}", average);
}
