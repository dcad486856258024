use vstd::arithmetic::power2::*;
use vstd::prelude::*;

use crate::bits::{
    des_bit, lemma_bits_determine, lemma_complement_u64, lemma_ones_des_bits, lemma_permuted_agree,
    lemma_permuted_bits, lemma_permuted_complement, lemma_shl_one, permuted,
};
use crate::permute::{permute_56_block_to_48, permute_block_28};
use crate::tables::{lemma_pc1_tables, lemma_pc2_table, LSS, PC1C, PC1D, PC2};

verus! {

/// The 28-bit value `c` (its low 28 bits) rotated left by one place: the low 27 bits move
/// up one place and bit 27 wraps round to bit 0.
pub open spec fn rotate_left_28(c: u32) -> u32 {
    ((c % 0x800_0000) * 2 + (c / 0x800_0000) % 2) as u32
}

/// `c` rotated left by one place `n` times over.
pub open spec fn rotate_left_28_times(c: u32, n: nat) -> u32
    decreases n,
{
    if n == 0 {
        c
    } else {
        rotate_left_28(rotate_left_28_times(c, (n - 1) as nat))
    }
}

/// The 56-bit value made of the 28 bits of `c` followed by the 28 bits of `d`, each
/// taken with whatever bits it holds above its low 28, or-ed into place.
pub open spec fn joined_28(c: u32, d: u32) -> u64 {
    (((c as u64) << 28u64) | (d as u64)) & 0x00ff_ffff_ffff_ffffu64
}

/// The sum of a sequence of small counts.
pub open spec fn total(s: Seq<u8>) -> nat
    decreases s.len(),
{
    if s.len() == 0 {
        0
    } else {
        total(s.drop_last()) + s.last() as nat
    }
}

/// The register C of the key schedule, before any rotation.
pub open spec fn register_c(key: u64) -> u32 {
    permuted(key, 64, PC1C@) as u32
}

/// The register D of the key schedule, before any rotation.
pub open spec fn register_d(key: u64) -> u32 {
    permuted(key, 64, PC1D@) as u32
}

/// The 48-bit key of round `i` (from 0): C and D, each rotated by the shifts of rounds
/// 0 to `i`, joined and reduced by permuted choice 2.
pub open spec fn round_key(key: u64, i: int) -> u64 {
    let n = total(LSS@.take(i + 1));
    permuted(
        joined_28(rotate_left_28_times(register_c(key), n), rotate_left_28_times(register_d(key), n)),
        56,
        PC2@,
    ) as u64
}

/// The 16 round keys derived from `key`.
pub open spec fn key_schedule(key: u64) -> Seq<u64> {
    Seq::new(16, |i: int| round_key(key, i))
}

/// Rotating left by one place moves every bit of the 28 one place to the left, bit 0
/// wrapping round to bit 27, and leaves nothing above the low 28 bits.
pub proof fn lemma_rotate_left_28_bits(c: u32)
    ensures
        rotate_left_28(c) < 0x1000_0000,
        forall|i: int|
            0 <= i < 28 ==> #[trigger] des_bit(rotate_left_28(c) as u64, 28, i) == des_bit(
                c as u64,
                28,
                (i + 1) % 28,
            ),
{
    let r = rotate_left_28(c);
    assert(r < 0x1000_0000) by (bit_vector)
        requires
            r == ((c % 0x800_0000) * 2 + (c / 0x800_0000) % 2) as u32,
    ;
    assert forall|i: int| 0 <= i < 28 implies #[trigger] des_bit(r as u64, 28, i) == des_bit(
        c as u64,
        28,
        (i + 1) % 28,
    ) by {
        let k = (27 - i) as u64;
        if i == 27 {
            assert((((r as u64) >> 0u64) & 1 == 1) == (((c as u64) >> 27u64) & 1 == 1))
                by (bit_vector)
                requires
                    r == ((c % 0x800_0000) * 2 + (c / 0x800_0000) % 2) as u32,
            ;
        } else {
            assert((((r as u64) >> k) & 1 == 1) == (((c as u64) >> ((k - 1) as u64)) & 1 == 1))
                by (bit_vector)
                requires
                    r == ((c % 0x800_0000) * 2 + (c / 0x800_0000) % 2) as u32,
                    1 <= k <= 27,
            ;
        }
    }
}

/// One place further round the 28 positions, then `n - 1` more, is `n` places round.
proof fn lemma_steps_round(i: int, n: int)
    requires
        0 <= i < 28,
        n >= 1,
    ensures
        ((i + 1) % 28 + (n - 1)) % 28 == (i + n) % 28,
{
    if i == 27 {
        vstd::arithmetic::div_mod::lemma_mod_add_multiples_vanish(n - 1, 28);
    }
}

/// Rotating `n` times moves every bit of the 28 `n` places to the left, round the end.
pub proof fn lemma_rotate_left_28_times_bits(c: u32, n: nat)
    ensures
        forall|i: int|
            0 <= i < 28 ==> #[trigger] des_bit(rotate_left_28_times(c, n) as u64, 28, i)
                == des_bit(c as u64, 28, (i + n) % 28),
    decreases n,
{
    if n > 0 {
        let prev = rotate_left_28_times(c, (n - 1) as nat);
        lemma_rotate_left_28_times_bits(c, (n - 1) as nat);
        lemma_rotate_left_28_bits(prev);
        assert forall|i: int| 0 <= i < 28 implies #[trigger] des_bit(
            rotate_left_28_times(c, n) as u64,
            28,
            i,
        ) == des_bit(c as u64, 28, (i + n) % 28) by {
            let j = (i + 1) % 28;
            assert(0 <= j < 28);
            assert(des_bit(prev as u64, 28, j) == des_bit(c as u64, 28, (j + (n - 1)) % 28));
            lemma_steps_round(i, n as int);
        }
    }
}

/// Rotating a 28-bit register left 28 times gives back its 28 bits: the rotation is
/// circular.
pub proof fn lemma_rotate_left_28_full_circle(c: u32)
    ensures
        rotate_left_28_times(c, 28) == c % 0x1000_0000,
{
    let r = rotate_left_28_times(c, 28);
    let low = c % 0x1000_0000;
    lemma_rotate_left_28_times_bits(c, 28);
    lemma_rotate_left_28_bits(rotate_left_28_times(c, 27));
    assert forall|i: int| 0 <= i < 28 implies #[trigger] des_bit(r as u64, 28, i) == des_bit(
        low as u64,
        28,
        i,
    ) by {
        let k = (27 - i) as u64;
        assert((((low as u64) >> k) & 1 == 1) == (((c as u64) >> k) & 1 == 1)) by (bit_vector)
            requires
                low == c % 0x1000_0000,
                k < 28,
        ;
    }
    lemma2_to64();
    lemma_bits_determine(r as u64, low as u64, 28);
}

/// Rotates the 28-bit value held in the low bits of `component` left by one place,
/// clearing the 4 high bits.
pub fn circular_left_shift_28(component: &u32) -> (shifted_component: u32)
    ensures
        shifted_component == rotate_left_28(*component),
        shifted_component < 0x1000_0000,
        forall|i: int|
            0 <= i < 28 ==> #[trigger] des_bit(shifted_component as u64, 28, i) == des_bit(
                *component as u64,
                28,
                (i + 1) % 28,
            ),
{
    let mask: u32 = 0b00001111111111111111111111111111;
    let mut shifted_component: u32;
    // store the value of the bit in position 28
    let carry_over = (*component >> 27u32) & 1;
    // shift everything by one
    shifted_component = *component << 1u32;
    // reinsert the carryover
    shifted_component |= carry_over;
    // clear any values in 4 high order bits
    shifted_component &= mask;
    let c = *component;
    assert(shifted_component == ((c % 0x800_0000) * 2 + (c / 0x800_0000) % 2) as u32)
        by (bit_vector)
        requires
            shifted_component == (((c << 1u32) | ((c >> 27u32) & 1)) & 0x0fff_ffffu32),
    ;
    proof {
        lemma_rotate_left_28_bits(c);
    }
    shifted_component
}

/// Joins two 28-bit values into one 56-bit value, `c` in the high half and `d` in the low.
pub fn concatenate_28_bit_blocks(c: &u32, d: &u32) -> (combined: u64)
    ensures
        combined == joined_28(*c, *d),
        *c < 0x1000_0000 && *d < 0x1000_0000 ==> combined == *c * 0x1000_0000 + *d,
{
    let mask: u64 = 0b0000000011111111111111111111111111111111111111111111111111111111;
    let mut combined: u64 = 0;
    // d is already in a good spot, as low order bits; c needs to be shifted into position
    let mut moved_c: u64 = 0;
    moved_c |= *c as u64;
    moved_c = moved_c << 28u64;
    // assemble the components
    combined |= moved_c;
    combined |= *d as u64;
    // clear any values in 8 high order bits
    combined &= mask;
    let cu = *c as u64;
    let du = *d as u64;
    assert(combined == ((cu << 28u64) | du) & 0x00ff_ffff_ffff_ffffu64 && (cu < 0x1000_0000
        && du < 0x1000_0000 ==> combined == cu * 0x1000_0000 + du)) by (bit_vector)
        requires
            combined == ((0u64 | (((0u64 | cu) << 28u64))) | du) & 0x00ff_ffff_ffff_ffffu64,
    ;
    combined
}

/// Derives the 16 round keys (48 bits each, in the low bits) from a 64-bit key.
pub fn generate_key_schedule(key: &u64) -> (key_schedule_out: [u64; 16])
    ensures
        key_schedule_out@ == key_schedule(*key),
        forall|i: int| 0 <= i < 16 ==> #[trigger] key_schedule_out@[i] < 0x1_0000_0000_0000,
{
    proof {
        lemma_pc1_tables();
        lemma_pc2_table();
    }
    let mut key_schedule_out: [u64; 16] = [0; 16];
    // compute the two components
    let mut c: u32 = permute_block_28(key, &PC1C);
    let mut d: u32 = permute_block_28(key, &PC1D);
    let ghost c0 = c;
    let ghost d0 = d;
    // generate each of the 16 keys
    for i in 0..16
        invariant
            c0 == register_c(*key),
            d0 == register_d(*key),
            forall|j: int| 0 <= j < 48 ==> 1 <= #[trigger] PC2@[j] <= 56,
            c == rotate_left_28_times(c0, total(LSS@.take(i as int))),
            d == rotate_left_28_times(d0, total(LSS@.take(i as int))),
            forall|j: int| 0 <= j < i ==> key_schedule_out@[j] == round_key(*key, j),
            forall|j: int| 0 <= j < i ==> #[trigger] key_schedule_out@[j] < 0x1_0000_0000_0000,
    {
        // shift according to the schedule
        let shift_amount: u8 = LSS[i];
        let ghost before = total(LSS@.take(i as int));
        for k in 0..shift_amount
            invariant
                c == rotate_left_28_times(c0, before + k as nat),
                d == rotate_left_28_times(d0, before + k as nat),
        {
            c = circular_left_shift_28(&c);
            d = circular_left_shift_28(&d);
        }
        assert(LSS@.take(i + 1).drop_last() =~= LSS@.take(i as int));
        // combine the keys into 56 bits
        let cd: u64 = concatenate_28_bit_blocks(&c, &d);
        // permute to 48 bits
        let round: u64 = permute_56_block_to_48(&cd, &PC2);
        proof {
            lemma_permuted_bits(cd, 56, PC2@);
            lemma2_to64_rest();
        }
        // store in key_schedule array
        key_schedule_out[i] = round;
    }
    assert(key_schedule_out@ =~= key_schedule(*key));
    key_schedule_out
}

/// Complementing the 28 bits of a register before a rotation complements them after it.
pub proof fn lemma_rotate_left_28_complement(c: u32)
    by (bit_vector)
    ensures
        rotate_left_28(c ^ 0x0fff_ffffu32) == rotate_left_28(c) ^ 0x0fff_ffffu32,
{
}

/// The same, over any number of rotations; and rotating keeps a 28-bit value within 28 bits.
pub proof fn lemma_rotate_left_28_times_complement(c: u32, n: nat)
    ensures
        rotate_left_28_times(c ^ 0x0fff_ffffu32, n) == rotate_left_28_times(c, n) ^ 0x0fff_ffffu32,
        c < 0x1000_0000 ==> rotate_left_28_times(c, n) < 0x1000_0000,
    decreases n,
{
    if n > 0 {
        lemma_rotate_left_28_times_complement(c, (n - 1) as nat);
        lemma_rotate_left_28_complement(rotate_left_28_times(c, (n - 1) as nat));
        lemma_rotate_left_28_bits(rotate_left_28_times(c, (n - 1) as nat));
    }
}

/// Complementing two 28-bit values complements the 56 bits that join them.
pub proof fn lemma_joined_28_complement(c: u32, d: u32)
    by (bit_vector)
    requires
        c < 0x1000_0000,
        d < 0x1000_0000,
    ensures
        joined_28(c ^ 0x0fff_ffffu32, d ^ 0x0fff_ffffu32) == joined_28(c, d) ^ 0x00ff_ffff_ffff_ffffu64,
{
}

/// A selection of 28 bits, complemented in 64 bits, narrows to the complement in 32 bits.
proof fn lemma_low_28_complement(p: u64)
    by (bit_vector)
    requires
        p < 0x1000_0000,
    ensures
        ((p ^ 0x0fff_ffffu64) as u32) == (p as u32) ^ 0x0fff_ffffu32,
        (p as u32) < 0x1000_0000,
{
}

/// Complementing the key complements both registers of the key schedule.
proof fn lemma_registers_complement(key: u64)
    ensures
        register_c(!key) == register_c(key) ^ 0x0fff_ffffu32,
        register_d(!key) == register_d(key) ^ 0x0fff_ffffu32,
        register_c(key) < 0x1000_0000,
        register_d(key) < 0x1000_0000,
{
    lemma_pc1_tables();
    lemma2_to64();
    lemma_complement_u64(key, 0, 0);
    lemma_ones_des_bits(0xffff_ffff_ffff_ffffu64, 64);
    lemma_permuted_complement(key, 0xffff_ffff_ffff_ffffu64, 64, PC1C@);
    lemma_permuted_complement(key, 0xffff_ffff_ffff_ffffu64, 64, PC1D@);
    lemma_permuted_bits(key, 64, PC1C@);
    lemma_permuted_bits(key, 64, PC1D@);
    lemma_low_28_complement(permuted(key, 64, PC1C@) as u64);
    lemma_low_28_complement(permuted(key, 64, PC1D@) as u64);
}

/// Complementing the key complements every 48-bit round key:
/// `generate_key_schedule(&!key)[i] == generate_key_schedule(&key)[i] ^ 0xFFFF_FFFF_FFFF`.
pub proof fn lemma_key_schedule_complement(key: u64)
    ensures
        forall|i: int|
            0 <= i < 16 ==> #[trigger] key_schedule(!key)[i] == key_schedule(key)[i]
                ^ 0xffff_ffff_ffffu64,
{
    lemma_pc2_table();
    lemma_registers_complement(key);
    lemma2_to64();
    lemma2_to64_rest();
    lemma_shl_one(56);
    lemma_ones_des_bits(0x00ff_ffff_ffff_ffffu64, 56);
    assert forall|i: int| 0 <= i < 16 implies #[trigger] key_schedule(!key)[i] == key_schedule(
        key,
    )[i] ^ 0xffff_ffff_ffffu64 by {
        let n = total(LSS@.take(i + 1));
        let c = rotate_left_28_times(register_c(key), n);
        let d = rotate_left_28_times(register_d(key), n);
        lemma_rotate_left_28_times_complement(register_c(key), n);
        lemma_rotate_left_28_times_complement(register_d(key), n);
        lemma_joined_28_complement(c, d);
        lemma_permuted_complement(joined_28(c, d), 0x00ff_ffff_ffff_ffffu64, 56, PC2@);
        lemma_permuted_bits(joined_28(c, d), 56, PC2@);
    }
}

/// A key bit that is not a parity bit reads the same with the parity bits cleared.
proof fn lemma_parity_bit(key: u64, k: u64)
    by (bit_vector)
    requires
        k < 64,
        k % 8 != 0,
    ensures
        ((key & 0xfefe_fefe_fefe_fefeu64) >> k) & 1 == (key >> k) & 1,
{
}

/// The parity bits of a key (bits 8, 16, ..., 64, the low bit of each byte) never affect
/// its key schedule: `generate_key_schedule(&key) ==
/// generate_key_schedule(&(key & 0xFEFE_FEFE_FEFE_FEFE))`.
pub proof fn lemma_key_schedule_ignores_parity(key: u64)
    ensures
        key_schedule(key & 0xfefe_fefe_fefe_fefeu64) == key_schedule(key),
{
    lemma_pc1_tables();
    let cleared = key & 0xfefe_fefe_fefe_fefeu64;
    assert forall|i: int| 0 <= i < 28 implies #[trigger] des_bit(cleared, 64, PC1C@[i] - 1)
        == des_bit(key, 64, PC1C@[i] - 1) by {
        lemma_parity_bit(key, (64 - PC1C@[i]) as u64);
    }
    assert forall|i: int| 0 <= i < 28 implies #[trigger] des_bit(cleared, 64, PC1D@[i] - 1)
        == des_bit(key, 64, PC1D@[i] - 1) by {
        lemma_parity_bit(key, (64 - PC1D@[i]) as u64);
    }
    lemma_permuted_agree(cleared, key, 64, PC1C@);
    lemma_permuted_agree(cleared, key, 64, PC1D@);
    assert(key_schedule(cleared) =~= key_schedule(key));
}

/// The shifts of the 16 rounds add up to 28.
pub proof fn lemma_shift_total()
    ensures
        total(LSS@) == 28,
{
    reveal_with_fuel(total, 17);
    assert(LSS@.take(1).drop_last() =~= LSS@.take(0));
    assert(LSS@.take(2).drop_last() =~= LSS@.take(1));
    assert(LSS@.take(3).drop_last() =~= LSS@.take(2));
    assert(LSS@.take(4).drop_last() =~= LSS@.take(3));
    assert(LSS@.take(5).drop_last() =~= LSS@.take(4));
    assert(LSS@.take(6).drop_last() =~= LSS@.take(5));
    assert(LSS@.take(7).drop_last() =~= LSS@.take(6));
    assert(LSS@.take(8).drop_last() =~= LSS@.take(7));
    assert(LSS@.take(9).drop_last() =~= LSS@.take(8));
    assert(LSS@.take(10).drop_last() =~= LSS@.take(9));
    assert(LSS@.take(11).drop_last() =~= LSS@.take(10));
    assert(LSS@.take(12).drop_last() =~= LSS@.take(11));
    assert(LSS@.take(13).drop_last() =~= LSS@.take(12));
    assert(LSS@.take(14).drop_last() =~= LSS@.take(13));
    assert(LSS@.take(15).drop_last() =~= LSS@.take(14));
    assert(LSS@.take(16) =~= LSS@);
}

/// The registers come full circle: the key of the last round is permuted choice 2 of C
/// and D as permuted choice 1 gave them, unrotated.
pub proof fn lemma_last_round_key(key: u64)
    ensures
        key_schedule(key)[15] == permuted(joined_28(register_c(key), register_d(key)), 56, PC2@)
            as u64,
{
    lemma_shift_total();
    assert(LSS@.take(16) =~= LSS@);
    lemma_registers_complement(key);
    lemma_rotate_left_28_full_circle(register_c(key));
    lemma_rotate_left_28_full_circle(register_d(key));
}

} // verus!
