use vstd::arithmetic::power2::*;
use vstd::prelude::*;

use crate::bits::{
    des_bit, lemma_complement_u64, lemma_ones_des_bits, lemma_permuted_bits, lemma_permuted_complement,
    lemma_permuted_xor, lemma_permuted_zero, lemma_or_bit_bound, lemma_or_bit_bound_u32, lemma_permuted_unique, lemma_set_des_bit,
    lemma_set_des_bit_u32, lemma_shl_one, lemma_zero_bits, permuted,
};
use crate::tables::{lemma_ip_tables, IIP, IP};

verus! {

/// Permutes the 64 bits of `block`: bit `i` of the result is bit
/// `permutation_vector[i]` of the block (bits numbered 1 to 64 from the left).
pub fn permute_block_64(block: &u64, permutation_vector: &[u8; 64]) -> (permuted_block: u64)
    requires
        forall|i: int| 0 <= i < 64 ==> 1 <= #[trigger] permutation_vector@[i] <= 64,
    ensures
        permuted_block == permuted(*block, 64, permutation_vector@),
{
    let mut permuted_block: u64 = 0;
    proof {
        lemma_zero_bits(64);
    }
    // one set of operations for each of the 64 bits
    for i in 0..64
        invariant
            forall|i: int| 0 <= i < 64 ==> 1 <= #[trigger] permutation_vector@[i] <= 64,
            forall|j: int|
                0 <= j < i ==> #[trigger] des_bit(permuted_block, 64, j) == des_bit(
                    *block,
                    64,
                    permutation_vector@[j] - 1,
                ),
            forall|j: int| i <= j < 64 ==> !#[trigger] des_bit(permuted_block, 64, j),
    {
        // DES numbers the bits from 1 at the most significant end, shifts count from 0
        // at the least significant end
        let bit_index = permutation_vector[i] - 1;
        let bit_value = (*block >> (63 - bit_index)) & 1;
        assert(bit_value <= 1 && (bit_value == 1) == ((*block >> ((63 - bit_index) as u64)) & 1 == 1))
            by (bit_vector)
            requires
                bit_value == (*block >> ((63 - bit_index) as u8)) & 1,
                bit_index <= 63,
        ;
        let bit_value_expanded = bit_value << (63 - i);
        proof {
            lemma_set_des_bit(permuted_block, bit_value, 64, i as int);
        }
        permuted_block |= bit_value_expanded;
    }
    proof {
        lemma2_to64_rest();
        lemma_permuted_unique(permuted_block, *block, 64, permutation_vector@);
    }
    permuted_block
}

/// Selects 48 bits from a 32-bit value held in the low bits of `block`: bit `i` of the
/// 48-bit result is bit `permutation_vector[i]` of the 32-bit value.
pub fn permute_block_48(block: &u64, permutation_vector: &[u8; 48]) -> (permuted_block: u64)
    requires
        forall|i: int| 0 <= i < 48 ==> 1 <= #[trigger] permutation_vector@[i] <= 32,
    ensures
        permuted_block == permuted(*block, 32, permutation_vector@),
{
    let mut permuted_block: u64 = 0;
    proof {
        lemma_zero_bits(48);
        lemma_shl_one(48);
        lemma2_to64_rest();
    }
    for i in 0..48
        invariant
            forall|i: int| 0 <= i < 48 ==> 1 <= #[trigger] permutation_vector@[i] <= 32,
            forall|j: int|
                0 <= j < i ==> #[trigger] des_bit(permuted_block, 48, j) == des_bit(
                    *block,
                    32,
                    permutation_vector@[j] - 1,
                ),
            forall|j: int| i <= j < 48 ==> !#[trigger] des_bit(permuted_block, 48, j),
            permuted_block < (1u64 << 48u64),
    {
        let bit_index = permutation_vector[i] - 1;
        // the values are held in the rightmost bits, so index from there
        let bit_value = (*block >> (31 - bit_index)) & 1;
        assert(bit_value <= 1 && (bit_value == 1) == ((*block >> ((31 - bit_index) as u64)) & 1 == 1))
            by (bit_vector)
            requires
                bit_value == (*block >> ((31 - bit_index) as u8)) & 1,
                bit_index <= 31,
        ;
        let bit_value_expanded = bit_value << (47 - i);
        proof {
            lemma_set_des_bit(permuted_block, bit_value, 48, i as int);
            lemma_or_bit_bound(permuted_block, bit_value, (47 - i) as u64, 48);
        }
        permuted_block |= bit_value_expanded;
    }
    proof {
        lemma_shl_one(48);
        lemma_permuted_unique(permuted_block, *block, 32, permutation_vector@);
    }
    permuted_block
}

/// Selects 48 bits from a 56-bit value held in the low bits of `block`: bit `i` of the
/// 48-bit result is bit `permutation_vector[i]` of the 56-bit value.
pub fn permute_56_block_to_48(block: &u64, permutation_vector: &[u8; 48]) -> (permuted_block: u64)
    requires
        forall|i: int| 0 <= i < 48 ==> 1 <= #[trigger] permutation_vector@[i] <= 56,
    ensures
        permuted_block == permuted(*block, 56, permutation_vector@),
{
    let mut permuted_block: u64 = 0;
    proof {
        lemma_zero_bits(48);
        lemma_shl_one(48);
        lemma2_to64_rest();
    }
    for i in 0..48
        invariant
            forall|i: int| 0 <= i < 48 ==> 1 <= #[trigger] permutation_vector@[i] <= 56,
            forall|j: int|
                0 <= j < i ==> #[trigger] des_bit(permuted_block, 48, j) == des_bit(
                    *block,
                    56,
                    permutation_vector@[j] - 1,
                ),
            forall|j: int| i <= j < 48 ==> !#[trigger] des_bit(permuted_block, 48, j),
            permuted_block < (1u64 << 48u64),
    {
        let bit_index = permutation_vector[i] - 1;
        let bit_value = (*block >> (55 - bit_index)) & 1;
        assert(bit_value <= 1 && (bit_value == 1) == ((*block >> ((55 - bit_index) as u64)) & 1 == 1))
            by (bit_vector)
            requires
                bit_value == (*block >> ((55 - bit_index) as u8)) & 1,
                bit_index <= 55,
        ;
        let bit_value_expanded = bit_value << (47 - i);
        proof {
            lemma_set_des_bit(permuted_block, bit_value, 48, i as int);
            lemma_or_bit_bound(permuted_block, bit_value, (47 - i) as u64, 48);
        }
        permuted_block |= bit_value_expanded;
    }
    proof {
        lemma_shl_one(48);
        lemma_permuted_unique(permuted_block, *block, 56, permutation_vector@);
    }
    permuted_block
}

/// Permutes the 32 bits of `block`: bit `i` of the result is bit
/// `permutation_vector[i]` of the block.
pub fn permute_block_32(block: &u32, permutation_vector: &[u8; 32]) -> (permuted_block: u32)
    requires
        forall|i: int| 0 <= i < 32 ==> 1 <= #[trigger] permutation_vector@[i] <= 32,
    ensures
        permuted_block == permuted(*block as u64, 32, permutation_vector@),
{
    let mut permuted_block: u32 = 0;
    proof {
        lemma_zero_bits(32);
    }
    for i in 0..32
        invariant
            forall|i: int| 0 <= i < 32 ==> 1 <= #[trigger] permutation_vector@[i] <= 32,
            forall|j: int|
                0 <= j < i ==> #[trigger] des_bit(permuted_block as u64, 32, j) == des_bit(
                    *block as u64,
                    32,
                    permutation_vector@[j] - 1,
                ),
            forall|j: int| i <= j < 32 ==> !#[trigger] des_bit(permuted_block as u64, 32, j),
    {
        let bit_index = permutation_vector[i] - 1;
        let bit_value: u32 = (*block >> (31 - bit_index)) & 1;
        assert(bit_value <= 1 && (bit_value == 1) == (((*block as u64) >> ((31 - bit_index) as u64)) & 1 == 1))
            by (bit_vector)
            requires
                bit_value == (*block >> ((31 - bit_index) as u8)) & 1,
                bit_index <= 31,
        ;
        let bit_value_expanded = bit_value << (31 - i);
        proof {
            lemma_set_des_bit_u32(permuted_block, bit_value, 32, i as int);
        }
        permuted_block |= bit_value_expanded;
    }
    proof {
        lemma2_to64();
        lemma2_to64_rest();
        lemma_permuted_unique(permuted_block as u64, *block as u64, 32, permutation_vector@);
    }
    permuted_block
}

/// Selects 28 bits from the 64 bits of `block`: bit `i` of the 28-bit result is bit
/// `permutation_vector[i]` of the block.
pub fn permute_block_28(block: &u64, permutation_vector: &[u8; 28]) -> (permuted_block: u32)
    requires
        forall|i: int| 0 <= i < 28 ==> 1 <= #[trigger] permutation_vector@[i] <= 64,
    ensures
        permuted_block == permuted(*block, 64, permutation_vector@),
{
    let mut permuted_block: u32 = 0;
    proof {
        lemma_zero_bits(28);
        assert(0u32 < (1u32 << 28u32)) by (bit_vector);
    }
    for i in 0..28
        invariant
            forall|i: int| 0 <= i < 28 ==> 1 <= #[trigger] permutation_vector@[i] <= 64,
            forall|j: int|
                0 <= j < i ==> #[trigger] des_bit(permuted_block as u64, 28, j) == des_bit(
                    *block,
                    64,
                    permutation_vector@[j] - 1,
                ),
            forall|j: int| i <= j < 28 ==> !#[trigger] des_bit(permuted_block as u64, 28, j),
            permuted_block < (1u32 << 28u32),
    {
        let bit_index = permutation_vector[i] - 1;
        let bit_value: u32 = ((*block >> (63 - bit_index)) & 1) as u32;
        assert(bit_value <= 1 && (bit_value == 1) == ((*block >> ((63 - bit_index) as u64)) & 1 == 1))
            by (bit_vector)
            requires
                bit_value == ((*block >> ((63 - bit_index) as u8)) & 1) as u32,
                bit_index <= 63,
        ;
        let bit_value_expanded = bit_value << (27 - i);
        proof {
            lemma_set_des_bit_u32(permuted_block, bit_value, 28, i as int);
            lemma_or_bit_bound_u32(permuted_block, bit_value, (27 - i) as u32, 28);
        }
        permuted_block |= bit_value_expanded;
    }
    proof {
        lemma2_to64();
        assert((1u32 << 28u32) == 0x1000_0000u32) by (bit_vector);
        lemma_permuted_unique(permuted_block as u64, *block, 64, permutation_vector@);
    }
    permuted_block
}

/// The initial permutation IP of a 64-bit block.
pub fn initial_permutation(input_block: &u64) -> (r: u64)
    ensures
        r == permuted(*input_block, 64, IP@),
{
    proof {
        lemma_ip_tables();
    }
    permute_block_64(input_block, &IP)
}

/// The inverse of the initial permutation, IP^-1, of a 64-bit block.
pub fn inverted_permutation(preoutput_block: &u64) -> (r: u64)
    ensures
        r == permuted(*preoutput_block, 64, IIP@),
{
    proof {
        lemma_ip_tables();
    }
    permute_block_64(preoutput_block, &IIP)
}

/// The inverse of the initial permutation undoes it, and the initial permutation undoes
/// its inverse: `inverted_permutation(initial_permutation(x)) == x` and
/// `initial_permutation(inverted_permutation(x)) == x` for every 64-bit block `x`.
pub proof fn lemma_initial_permutation_inverse(x: u64)
    ensures
        permuted(permuted(x, 64, IP@) as u64, 64, IIP@) == x,
        permuted(permuted(x, 64, IIP@) as u64, 64, IP@) == x,
{
    lemma_ip_tables();
    lemma2_to64_rest();
    lemma_permuted_bits(x, 64, IP@);
    lemma_permuted_bits(x, 64, IIP@);
    let y = permuted(x, 64, IP@) as u64;
    let z = permuted(x, 64, IIP@) as u64;
    assert forall|i: int| 0 <= i < 64 implies #[trigger] des_bit(x, 64, i) == des_bit(
        y,
        64,
        IIP@[i] - 1,
    ) by {
        assert(des_bit(y, 64, IIP@[i] - 1) == des_bit(x, 64, IP@[IIP@[i] - 1] - 1));
    }
    lemma_permuted_unique(x, y, 64, IIP@);
    assert forall|i: int| 0 <= i < 64 implies #[trigger] des_bit(x, 64, i) == des_bit(
        z,
        64,
        IP@[i] - 1,
    ) by {
        assert(des_bit(z, 64, IP@[i] - 1) == des_bit(x, 64, IIP@[IP@[i] - 1] - 1));
    }
    lemma_permuted_unique(x, z, 64, IP@);
}

/// A 64-bit permutation commutes with exclusive or and with complement, and maps zero
/// to zero: `permute_block_64(&(a ^ b), p) == permute_block_64(&a, p) ^ permute_block_64(&b, p)`,
/// `permute_block_64(&0, p) == 0` and `permute_block_64(&!a, p) == !permute_block_64(&a, p)`.
pub proof fn lemma_permute_64_linear(a: u64, b: u64, table: Seq<u8>)
    requires
        table.len() == 64,
        forall|i: int| 0 <= i < 64 ==> 1 <= #[trigger] table[i] <= 64,
    ensures
        permuted(a ^ b, 64, table) == (permuted(a, 64, table) as u64 ^ permuted(b, 64, table) as u64),
        permuted(0u64, 64, table) == 0,
        permuted(!a, 64, table) == !(permuted(a, 64, table) as u64),
{
    lemma_permuted_xor(a, b, 64, table);
    lemma_permuted_zero(64, table);
    lemma_ones_des_bits(0xffff_ffff_ffff_ffffu64, 64);
    lemma_permuted_complement(a, 0xffff_ffff_ffff_ffffu64, 64, table);
    lemma2_to64_rest();
    lemma_complement_u64(a, 0, 0);
    lemma_complement_u64(permuted(a, 64, table) as u64, 0, 0);
}

} // verus!
