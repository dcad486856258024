use vstd::arithmetic::power2::*;
use vstd::prelude::*;

use crate::bits::{
    des_bit, lemma_des_bit_xor,
    lemma_complement_u32, lemma_complement_u64, lemma_ones_des_bits, lemma_permuted_bits,
    lemma_permuted_complement, lemma_shl_one, permuted,
};
use crate::permute::{permute_block_32, permute_block_48};
use crate::tables::{
    lemma_cipher_permutation_table, lemma_expansion_table, lemma_selection_values, CIPHER_PERMUTATION,
    E_BIT_SELECTION_TABLE, LOOKUP_TABLES,
};

verus! {

/// The 48-bit expansion E of a 32-bit half block.
pub open spec fn expanded(block: u32) -> u64 {
    permuted(block as u64, 32, E_BIT_SELECTION_TABLE@) as u64
}

/// Group `j` (from 0, counted from the left) of the eight 6-bit groups that make up the
/// low 48 bits of `x`.
pub open spec fn six_bit_group(x: u64, j: int) -> u8 {
    ((x >> ((6 * (7 - j)) as u64)) & 0x3fu64) as u8
}

/// Where a selection function looks up the 6-bit group held in the low bits of `b`: the
/// first and last of the six bits give the row (0 to 3), the middle four the column
/// (0 to 15), in a table of 4 rows of 16.
pub open spec fn sbox_index(b: u8) -> int {
    16 * (2 * ((b / 32) % 2) + b % 2) + (b / 2) % 16
}

/// The values of `s` joined into one 32-bit value, 4 bits apiece, the first value in the
/// most significant place: each step shifts what is there left by 4 and ors the next value in.
pub open spec fn joined_nibbles(s: Seq<u8>) -> u32
    decreases s.len(),
{
    if s.len() == 0 {
        0
    } else {
        (joined_nibbles(s.drop_last()) << 4u32) | (s.last() as u32)
    }
}

/// The eight 4-bit outputs of the selection functions for half block `block` and round key `key`.
pub open spec fn sbox_outputs(block: u32, key: u64) -> Seq<u8> {
    Seq::new(
        8,
        |j: int| LOOKUP_TABLES@[j]@[sbox_index(six_bit_group(expanded(block) ^ key, j))],
    )
}

/// The cipher function f(R, K): expand R, add the key bit by bit (exclusive or), pass the
/// eight 6-bit groups through the selection functions, join the outputs, and apply P.
pub open spec fn cipher(block: u32, key: u64) -> u32 {
    permuted(joined_nibbles(sbox_outputs(block, key)) as u64, 32, CIPHER_PERMUTATION@) as u32
}

/// Joins eight 4-bit values into one 32-bit value, the first in the most significant place.
pub fn concatenate_4_bit_blocks(blocks: &[u8; 8]) -> (combined: u32)
    ensures
        combined == joined_nibbles(blocks@),
{
    let mut combined: u32 = 0;
    assert((0u32 << 4u32) == 0u32) by (bit_vector);
    assert(blocks@.take(0) =~= Seq::<u8>::empty());
    // proceed left to right as DES expects
    for i in 0..8
        invariant
            combined == (if i < 8 {
                joined_nibbles(blocks@.take(i as int)) << 4u32
            } else {
                joined_nibbles(blocks@.take(i as int))
            }),
    {
        assert(blocks@.take(i + 1).drop_last() =~= blocks@.take(i as int));
        // build from the low order out
        combined |= blocks[i] as u32;
        // handle fencepost for the end
        if i != 7 {
            combined = combined << 4u32;
        }
    }
    assert(blocks@.take(8) =~= blocks@);
    combined
}

/// Expands a 32-bit half block to 48 bits with the expansion E.
pub fn expand_block_48(block: &u32) -> (expanded_block: u64)
    ensures
        expanded_block == expanded(*block),
        expanded_block < 0x1_0000_0000_0000,
{
    proof {
        lemma_expansion_table();
    }
    let mask: u64 = 0b0000000011111111111111111111111111111111111111111111111111111111;
    // convert to 64 bits (safe conversion) to use the general selection
    let cast_block = *block as u64;
    let mut expanded_block = permute_block_48(&cast_block, &E_BIT_SELECTION_TABLE);
    proof {
        lemma_permuted_bits(cast_block, 32, E_BIT_SELECTION_TABLE@);
        lemma2_to64_rest();
    }
    let ghost before = expanded_block;
    // clear any values in 8 high order bits
    expanded_block &= mask;
    assert(expanded_block == before) by (bit_vector)
        requires
            before < 0x1_0000_0000_0000u64,
            expanded_block == before & 0x00ff_ffff_ffff_ffffu64,
    ;
    expanded_block
}

/// Splits the low 48 bits of `block` into eight 6-bit groups, the leftmost first.
pub fn extract_6_bit_groups(block: &u64) -> (bit_groups: [u8; 8])
    ensures
        forall|j: int| 0 <= j < 8 ==> #[trigger] bit_groups@[j] == six_bit_group(*block, j),
        forall|j: int| 0 <= j < 8 ==> #[trigger] bit_groups@[j] < 64,
        forall|j: int, k: int|
            0 <= j < 8 && 0 <= k < 6 ==> #[trigger] des_bit(bit_groups@[j] as u64, 6, k) == des_bit(
                *block,
                48,
                6 * j + k,
            ),
{
    let mut bit_groups: [u8; 8] = [0; 8];
    let group_size: usize = 6;
    let mask: u8 = 0b00111111;
    // iterate backwards since DES goes left to right
    let mut i: usize = 8;
    while i > 0
        invariant
            i <= 8,
            group_size == 6,
            mask == 0x3f,
            forall|j: int| i <= j < 8 ==> #[trigger] bit_groups@[j] == six_bit_group(*block, j),
        decreases i,
    {
        i = i - 1;
        // perform the needed right shifts
        let current_group = *block >> ((7 - i) * group_size);
        // casting truncates to the lowest 8 bits
        let least_significant_byte: u8 = current_group as u8;
        // remove 2 high order bits
        let value = least_significant_byte & mask;
        let ghost x = *block;
        let ghost s = ((7 - i) * 6) as u64;
        assert(value == ((x >> s) & 0x3fu64) as u8) by (bit_vector)
            requires
                value == ((x >> s) as u8) & 0x3fu8,
        ;
        bit_groups[i] = value;
    }
    proof {
        assert forall|j: int, k: int| 0 <= j < 8 && 0 <= k < 6 implies #[trigger] des_bit(
            bit_groups@[j] as u64,
            6,
            k,
        ) == des_bit(*block, 48, 6 * j + k) && bit_groups@[j] < 64 by {
            lemma_six_bit_group_bits(*block, j);
        }
        assert forall|j: int| 0 <= j < 8 implies #[trigger] bit_groups@[j] < 64 by {
            lemma_six_bit_group_bits(*block, j);
        }
    }
    bit_groups
}

/// Looks up the 6-bit group held in the low bits of `bit_group` in a selection function:
/// the first and last bits give the row, the middle four the column.
pub fn reduce_bit_group(bit_group: &u8, lookup_table: &[u8; 64]) -> (value: u8)
    ensures
        value == lookup_table@[sbox_index(*bit_group)],
        *bit_group < 64 ==> value == lookup_table@[16 * (2 * bit_value(*bit_group as u64, 6, 0)
            + bit_value(*bit_group as u64, 6, 5)) + 8 * bit_value(*bit_group as u64, 6, 1) + 4
            * bit_value(*bit_group as u64, 6, 2) + 2 * bit_value(*bit_group as u64, 6, 3)
            + bit_value(*bit_group as u64, 6, 4)],
{
    let b = *bit_group;
    // determine the row
    let row_low = b & 1;
    let row_high = (b >> 5u8) & 1;
    assert(row_low == b % 2 && row_high == (b / 32) % 2) by (bit_vector)
        requires
            row_low == b & 1,
            row_high == (b >> 5u8) & 1,
    ;
    let row = (2 * row_high) + row_low;
    // determine the col
    let col = (b >> 1u8) & 15;
    assert(col == (b / 2) % 16) by (bit_vector)
        requires
            col == (b >> 1u8) & 15,
    ;
    // calculate the index in the lookup table
    let index = (row * 16) + col;
    proof {
        if b < 64 {
            lemma_sbox_index_rule(b);
        }
    }
    lookup_table[index as usize]
}

/// The cipher function f: enciphers a 32-bit half block with a 48-bit round key.
pub fn cipher_function(block: &u32, key: &u64) -> (output: u32)
    ensures
        output == cipher(*block, *key),
        forall|i: int|
            0 <= i < 32 ==> #[trigger] des_bit(output as u64, 32, i) == des_bit(
                selection_output(*block, *key, (CIPHER_PERMUTATION@[i] - 1) / 4) as u64,
                4,
                (CIPHER_PERMUTATION@[i] - 1) % 4,
            ),
{
    proof {
        lemma_cipher_permutation_table();
    }
    let mut reduced_bit_groups: [u8; 8] = [0; 8];
    // expand the given block to match the key length
    let expanded_block: u64 = expand_block_48(block);
    // XOR the block and the key
    let block_xor_key: u64 = expanded_block ^ *key;
    // extract the 8 sets of 6 bits
    let bit_groups: [u8; 8] = extract_6_bit_groups(&block_xor_key);
    // reduce bit groups and store
    for i in 0..8
        invariant
            bit_groups@.len() == 8,
            block_xor_key == expanded(*block) ^ *key,
            forall|j: int| 0 <= j < 8 ==> #[trigger] bit_groups@[j] == six_bit_group(block_xor_key, j),
            forall|j: int| 0 <= j < i ==> #[trigger] reduced_bit_groups@[j] == sbox_outputs(*block, *key)[j],
    {
        reduced_bit_groups[i] = reduce_bit_group(&bit_groups[i], &LOOKUP_TABLES[i]);
    }
    assert(reduced_bit_groups@ =~= sbox_outputs(*block, *key));
    // combine the reduced groups into one number
    let preoutput: u32 = concatenate_4_bit_blocks(&reduced_bit_groups);
    // perform final permutation
    proof {
        lemma_cipher_function_rule(*block, *key);
    }
    permute_block_32(&preoutput, &CIPHER_PERMUTATION)
}

/// The six-bit groups of a 48-bit value read none of the bits above the low 48.
proof fn lemma_group_high_bits(x: u64, key: u64, s: u64)
    by (bit_vector)
    requires
        s <= 42,
    ensures
        ((x ^ (key & 0xffff_ffff_ffffu64)) >> s) & 0x3fu64 == ((x ^ key) >> s) & 0x3fu64,
{
}

/// The cipher function reads only the low 48 bits of the round key:
/// `cipher_function(&block, &key) == cipher_function(&block, &(key & 0xFFFF_FFFF_FFFF))`.
pub proof fn lemma_cipher_ignores_high_key_bits(block: u32, key: u64)
    ensures
        cipher(block, key & 0xffff_ffff_ffffu64) == cipher(block, key),
{
    assert forall|j: int| 0 <= j < 8 implies #[trigger] six_bit_group(
        expanded(block) ^ (key & 0xffff_ffff_ffffu64),
        j,
    ) == six_bit_group(expanded(block) ^ key, j) by {
        lemma_group_high_bits(expanded(block), key, (6 * (7 - j)) as u64);
    }
    assert(sbox_outputs(block, key & 0xffff_ffff_ffffu64) =~= sbox_outputs(block, key));
}

/// Complementing a half block complements its 48-bit expansion.
pub proof fn lemma_expanded_complement(block: u32)
    ensures
        expanded(!block) == expanded(block) ^ 0xffff_ffff_ffffu64,
{
    lemma_expansion_table();
    lemma_complement_u32(block, 0);
    lemma2_to64();
    lemma2_to64_rest();
    lemma_shl_one(32);
    lemma_ones_des_bits(0xffff_ffffu64, 32);
    lemma_permuted_complement(block as u64, 0xffff_ffffu64, 32, E_BIT_SELECTION_TABLE@);
    lemma_permuted_bits(block as u64, 32, E_BIT_SELECTION_TABLE@);
}

/// Complementing both the half block and the 48 bits of the round key leaves the cipher
/// function unchanged: `cipher_function(&!block, &(key ^ 0xFFFF_FFFF_FFFF)) ==
/// cipher_function(&block, &key)`.
pub proof fn lemma_cipher_complement(block: u32, key: u64)
    ensures
        cipher(!block, key ^ 0xffff_ffff_ffffu64) == cipher(block, key),
{
    lemma_expanded_complement(block);
    lemma_complement_u64(expanded(block), key, 0xffff_ffff_ffffu64);
    assert(sbox_outputs(!block, key ^ 0xffff_ffff_ffffu64) =~= sbox_outputs(block, key));
}

/// 1 where DES bit `i` of the `width`-bit value `x` is set, 0 where it is clear.
pub open spec fn bit_value(x: u64, width: int, i: int) -> int {
    if des_bit(x, width, i) {
        1
    } else {
        0
    }
}

proof fn lemma_six_bits(b: u8)
    by (bit_vector)
    requires
        b < 64,
    ensures
        (b / 32) % 2 == (if ((b as u64) >> 5u64) & 1u64 == 1u64 {
            1u8
        } else {
            0u8
        }),
        b % 2 == (if ((b as u64) >> 0u64) & 1u64 == 1u64 {
            1u8
        } else {
            0u8
        }),
        (b / 2) % 16 == 8 * (if ((b as u64) >> 4u64) & 1u64 == 1u64 {
            1u8
        } else {
            0u8
        }) + 4 * (if ((b as u64) >> 3u64) & 1u64 == 1u64 {
            1u8
        } else {
            0u8
        }) + 2 * (if ((b as u64) >> 2u64) & 1u64 == 1u64 {
            1u8
        } else {
            0u8
        }) + (if ((b as u64) >> 1u64) & 1u64 == 1u64 {
            1u8
        } else {
            0u8
        }),
{
}

/// The row and column rule of the selection functions: a 6-bit group is looked up at row
/// `2 * first bit + last bit` and column `the middle four bits` (read from the left), that
/// is at `16 * row + column` in a table of 4 rows of 16.
pub proof fn lemma_sbox_index_rule(b: u8)
    requires
        b < 64,
    ensures
        sbox_index(b) == 16 * (2 * bit_value(b as u64, 6, 0) + bit_value(b as u64, 6, 5)) + 8
            * bit_value(b as u64, 6, 1) + 4 * bit_value(b as u64, 6, 2) + 2 * bit_value(
            b as u64,
            6,
            3,
        ) + bit_value(b as u64, 6, 4),
{
    lemma_six_bits(b);
}

proof fn lemma_group_bit(x: u64, s: u64, t: u64)
    by (bit_vector)
    requires
        s <= 42,
        t < 6,
    ensures
        ((((x >> s) & 0x3fu64) as u8) as u64) < 64,
        (((((x >> s) & 0x3fu64) as u8) as u64) >> t) & 1 == (x >> ((s + t) as u64)) & 1,
{
}

/// Group `j` of the eight 6-bit groups of a 48-bit value is exactly its bits `6j` to
/// `6j + 5` (from the left, from 0), in order.
pub proof fn lemma_six_bit_group_bits(x: u64, j: int)
    requires
        0 <= j < 8,
    ensures
        six_bit_group(x, j) < 64,
        forall|k: int|
            0 <= k < 6 ==> #[trigger] des_bit(six_bit_group(x, j) as u64, 6, k) == des_bit(
                x,
                48,
                6 * j + k,
            ),
{
    let s = (6 * (7 - j)) as u64;
    lemma_group_bit(x, s, 0);
    assert forall|k: int| 0 <= k < 6 implies #[trigger] des_bit(six_bit_group(x, j) as u64, 6, k)
        == des_bit(x, 48, 6 * j + k) by {
        lemma_group_bit(x, s, (5 - k) as u64);
    }
}

proof fn lemma_nibble_step(v: u32, l: u32, m: u64, s: u64)
    by (bit_vector)
    requires
        m <= 28,
        (v as u64) >> m == 0,
        l < 16,
    ensures
        (((v << 4u32) | l) as u64) >> ((m + 4) as u64) == 0,
        s < m ==> ((((v << 4u32) | l) as u64) >> ((s + 4) as u64)) & 1 == ((v as u64) >> s) & 1,
        s < 4 ==> ((((v << 4u32) | l) as u64) >> s) & 1 == ((l as u64) >> s) & 1,
{
}

/// Joining values below 16 puts value `a` in bits `4a` to `4a + 3` (from the left) of the
/// result, and nothing above.
pub proof fn lemma_joined_nibbles_bits(s: Seq<u8>)
    requires
        s.len() <= 8,
        forall|i: int| 0 <= i < s.len() ==> #[trigger] s[i] < 16,
    ensures
        (joined_nibbles(s) as u64) >> ((4 * s.len()) as u64) == 0,
        forall|a: int, t: int|
            0 <= a < s.len() && 0 <= t < 4 ==> #[trigger] des_bit(
                joined_nibbles(s) as u64,
                4 * s.len() as int,
                4 * a + t,
            ) == des_bit(#[trigger] s[a] as u64, 4, t),
    decreases s.len(),
{
    let n = s.len() as int;
    if n == 0 {
        assert((0u32 as u64) >> 0u64 == 0) by (bit_vector);
    } else {
        let front = s.drop_last();
        assert forall|i: int| 0 <= i < front.len() implies #[trigger] front[i] < 16 by {
            assert(front[i] == s[i]);
        }
        lemma_joined_nibbles_bits(front);
        let v = joined_nibbles(front);
        let l = s.last() as u32;
        let m = (4 * (n - 1)) as u64;
        lemma_nibble_step(v, l, m, 0);
        assert forall|a: int, t: int| 0 <= a < n && 0 <= t < 4 implies #[trigger] des_bit(
            joined_nibbles(s) as u64,
            4 * n,
            4 * a + t,
        ) == des_bit(#[trigger] s[a] as u64, 4, t) by {
            if a < n - 1 {
                assert(front[a] == s[a]);
                assert(des_bit(v as u64, 4 * (n - 1), 4 * a + t) == des_bit(front[a] as u64, 4, t));
                lemma_nibble_step(v, l, m, (4 * (n - 1) - 1 - 4 * a - t) as u64);
            } else {
                lemma_nibble_step(v, l, m, (3 - t) as u64);
            }
        }
    }
}

/// Bit `m` (from 0) of the S-box input E(R) xor K, as 1 or 0: bit `E[m]` of the half
/// block, flipped where bit `m` of the 48-bit round key is set.
pub open spec fn sbox_input_bit(block: u32, key: u64, m: int) -> int {
    if des_bit(block as u64, 32, E_BIT_SELECTION_TABLE@[m] - 1) != des_bit(key, 48, m) {
        1
    } else {
        0
    }
}

/// The output of selection function `j`: its table at row `2 * bit 6j + bit 6j+5` and
/// column `bits 6j+1 to 6j+4` of the S-box input.
pub open spec fn selection_output(block: u32, key: u64, j: int) -> u8 {
    LOOKUP_TABLES@[j]@[16 * (2 * sbox_input_bit(block, key, 6 * j) + sbox_input_bit(
        block,
        key,
        6 * j + 5,
    )) + 8 * sbox_input_bit(block, key, 6 * j + 1) + 4 * sbox_input_bit(block, key, 6 * j + 2)
        + 2 * sbox_input_bit(block, key, 6 * j + 3) + sbox_input_bit(block, key, 6 * j + 4)]
}

/// The cipher function f bit by bit: bit `i` of f(R, K) is bit `P[i]` of the 32 bits that
/// the eight selection functions give, four apiece in order, each looked up by the row and
/// column rule in the bits of E(R) xor K.
pub proof fn lemma_cipher_function_rule(block: u32, key: u64)
    ensures
        forall|i: int|
            0 <= i < 32 ==> #[trigger] des_bit(cipher(block, key) as u64, 32, i) == des_bit(
                selection_output(block, key, (CIPHER_PERMUTATION@[i] - 1) / 4) as u64,
                4,
                (CIPHER_PERMUTATION@[i] - 1) % 4,
            ),
{
    lemma_expansion_table();
    lemma_cipher_permutation_table();
    lemma_selection_values();
    lemma2_to64();
    lemma2_to64_rest();
    let x = expanded(block) ^ key;
    let outs = sbox_outputs(block, key);
    lemma_permuted_bits(block as u64, 32, E_BIT_SELECTION_TABLE@);
    assert forall|j: int| 0 <= j < 8 implies #[trigger] outs[j] == selection_output(
        block,
        key,
        j,
    ) by {
        let g = six_bit_group(x, j);
        lemma_six_bit_group_bits(x, j);
        lemma_sbox_index_rule(g);
        assert forall|k: int| 0 <= k < 6 implies #[trigger] bit_value(g as u64, 6, k)
            == sbox_input_bit(block, key, 6 * j + k) by {
            lemma_des_bit_xor(expanded(block), key, 48, 6 * j + k);
        }
        assert(bit_value(g as u64, 6, 0) == sbox_input_bit(block, key, 6 * j + 0));
    }
    assert forall|i: int| 0 <= i < outs.len() implies #[trigger] outs[i] < 16 by {
        lemma_six_bit_group_bits(x, i);
    }
    lemma_joined_nibbles_bits(outs);
    let joined = joined_nibbles(outs);
    lemma_permuted_bits(joined as u64, 32, CIPHER_PERMUTATION@);
    assert forall|i: int| 0 <= i < 32 implies #[trigger] des_bit(cipher(block, key) as u64, 32, i)
        == des_bit(
        selection_output(block, key, (CIPHER_PERMUTATION@[i] - 1) / 4) as u64,
        4,
        (CIPHER_PERMUTATION@[i] - 1) % 4,
    ) by {
        let m = CIPHER_PERMUTATION@[i] - 1;
        let a = m / 4;
        let t = m % 4;
        assert(4 * a + t == m);
        assert(des_bit(joined as u64, 32, 4 * a + t) == des_bit(outs[a] as u64, 4, t));
    }
}

} // verus!
