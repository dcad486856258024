use vstd::prelude::*;

use crate::bits::{lemma_complement_u32, permuted};
use crate::cipher::{cipher, cipher_function, lemma_cipher_complement};
use crate::key_schedule::{key_schedule, lemma_key_schedule_complement};
use crate::permute::{
    initial_permutation, inverted_permutation, lemma_initial_permutation_inverse,
    lemma_permute_64_linear,
};
use crate::tables::lemma_ip_tables;
use crate::tables::{IIP, IP};

verus! {

/// The left (high) and right (low) 32-bit halves of a 64-bit block.
pub open spec fn halves(block: u64) -> (u32, u32) {
    ((block / 0x1_0000_0000) as u32, (block % 0x1_0000_0000) as u32)
}

/// The 64-bit block with `left` as its high half and `right` as its low half.
pub open spec fn joined_halves(left: u32, right: u32) -> u64 {
    (left * 0x1_0000_0000 + right) as u64
}

/// The halves (L, R) after one Feistel round per key, in order, from (`left`, `right`):
/// each round turns (L, R) into (R, L xor f(R, K)).
pub open spec fn rounds(left: u32, right: u32, keys: Seq<u64>) -> (u32, u32)
    decreases keys.len(),
{
    if keys.len() == 0 {
        (left, right)
    } else {
        let (l, r) = rounds(left, right, keys.drop_last());
        (r, l ^ cipher(r, keys.last()))
    }
}

/// DES on one block with the given round keys: the initial permutation, one round per
/// key, the halves swapped, and the inverse of the initial permutation.
pub open spec fn feistel(block: u64, keys: Seq<u64>) -> u64 {
    let (l0, r0) = halves(permuted(block, 64, IP@) as u64);
    let (l, r) = rounds(l0, r0, keys);
    permuted(joined_halves(r, l), 64, IIP@) as u64
}

/// Splits a 64-bit block into its left (high) and right (low) 32-bit halves.
pub fn divide_64_bit_block(block: &u64) -> (halves_out: (u32, u32))
    ensures
        halves_out == halves(*block),
{
    let right: u32 = *block as u32;
    let left: u32 = (*block >> 32u64) as u32;
    let x = *block;
    assert(right == (x % 0x1_0000_0000) as u32 && left == (x / 0x1_0000_0000) as u32)
        by (bit_vector)
        requires
            right == x as u32,
            left == (x >> 32u64) as u32,
    ;
    (left, right)
}

/// Joins two 32-bit halves into one 64-bit block, `left` in the high half.
pub fn combine_2_32_bit_blocks(left: &u32, right: &u32) -> (output: u64)
    ensures
        output == joined_halves(*left, *right),
{
    let mut output: u64 = 0;
    // add the left side first
    output |= *left as u64;
    // shift bits into position
    output <<= 32u64;
    // add the right side
    output |= *right as u64;
    let l = *left;
    let r = *right;
    assert(output == (l * 0x1_0000_0000 + r) as u64) by (bit_vector)
        requires
            output == (((0u64 | (l as u64)) << 32u64) | (r as u64)),
    ;
    output
}

/// Enciphers a 64-bit block with a key schedule of 16 round keys, used in order.
pub fn encipher_block(block: &u64, key_schedule: &[u64; 16]) -> (output: u64)
    ensures
        output == feistel(*block, key_schedule@),
{
    // perform the initial permutation
    let initial_permutation_block = initial_permutation(block);
    // get the initial left and right components
    let (left0, right0) = divide_64_bit_block(&initial_permutation_block);
    let mut left: u32 = left0;
    let mut right: u32 = right0;
    assert(key_schedule@.take(0) =~= Seq::<u64>::empty());
    // perform 16 rounds of cipher function operations
    for i in 0..16
        invariant
            (left, right) == rounds(left0, right0, key_schedule@.take(i as int)),
    {
        let key = key_schedule[i];
        assert(key_schedule@.take(i + 1).drop_last() =~= key_schedule@.take(i as int));
        // left prime is simply right prior to any transformations
        let left_prime = right;
        // XOR of left with the cipher function on the right block using the round key
        let right_prime = left ^ cipher_function(&right, &key);
        left = left_prime;
        right = right_prime;
    }
    assert(key_schedule@.take(16) =~= key_schedule@);
    // combine values back to 64 bit value
    let preoutput_block = combine_2_32_bit_blocks(&right, &left);
    // perform the inverse of the initial permutation
    inverted_permutation(&preoutput_block)
}

/// Deciphers a 64-bit block with a key schedule of 16 round keys, used in reverse order.
pub fn decipher_block(block: &u64, key_schedule: &[u64; 16]) -> (output: u64)
    ensures
        output == feistel(*block, key_schedule@.reverse()),
{
    let ghost keys = key_schedule@.reverse();
    // perform the initial permutation
    let initial_permutation_block = initial_permutation(block);
    // get the initial left and right components
    let (left0, right0) = divide_64_bit_block(&initial_permutation_block);
    let mut left: u32 = left0;
    let mut right: u32 = right0;
    assert(keys.take(0) =~= Seq::<u64>::empty());
    // perform 16 rounds of cipher function operations in reverse
    for i in 0..16
        invariant
            keys == key_schedule@.reverse(),
            (left, right) == rounds(left0, right0, keys.take(i as int)),
    {
        let key = key_schedule[15 - i];
        assert(keys.take(i + 1).drop_last() =~= keys.take(i as int));
        assert(keys[i as int] == key);
        let left_prime = right;
        let right_prime = left ^ cipher_function(&right, &key);
        left = left_prime;
        right = right_prime;
    }
    assert(keys.take(16) =~= keys);
    let preoutput_block = combine_2_32_bit_blocks(&right, &left);
    inverted_permutation(&preoutput_block)
}

/// Splitting a joined block gives back its halves, and joining the halves of a block gives
/// back the block.
pub proof fn lemma_halves_inverse(block: u64, left: u32, right: u32)
    ensures
        halves(joined_halves(left, right)) == (left, right),
        joined_halves(halves(block).0, halves(block).1) == block,
{
}

/// Adding the same value twice by exclusive or changes nothing.
pub proof fn lemma_xor_cancel(a: u32, b: u32)
    by (bit_vector)
    ensures
        (a ^ b) ^ b == a,
{
}

/// Running the rounds from the first key: one round, then the rest.
pub proof fn lemma_rounds_first(left: u32, right: u32, key: u64, rest: Seq<u64>)
    ensures
        rounds(left, right, seq![key] + rest) == rounds(right, left ^ cipher(right, key), rest),
    decreases rest.len(),
{
    let keys = seq![key] + rest;
    if rest.len() == 0 {
        assert(keys.drop_last() =~= Seq::<u64>::empty());
        assert(keys.last() == key);
        assert(rounds(left, right, keys.drop_last()) == (left, right));
        assert(rest =~= Seq::<u64>::empty());
    } else {
        assert(keys.drop_last() =~= seq![key] + rest.drop_last());
        assert(keys.last() == rest.last());
        lemma_rounds_first(left, right, key, rest.drop_last());
        assert(rounds(left, right, keys.drop_last()) == rounds(
            right,
            left ^ cipher(right, key),
            rest.drop_last(),
        ));
    }
}

/// The rounds undo themselves: starting from the swapped result of the rounds and running
/// the keys in reverse order gives back the swapped starting halves.
pub proof fn lemma_rounds_reverse(left: u32, right: u32, keys: Seq<u64>)
    ensures
        rounds(rounds(left, right, keys).1, rounds(left, right, keys).0, keys.reverse()) == (
        right,
        left,
        ),
    decreases keys.len(),
{
    if keys.len() > 0 {
        let front = keys.drop_last();
        let k = keys.last();
        let (l1, r1) = rounds(left, right, front);
        let l2 = r1;
        let r2 = l1 ^ cipher(r1, k);
        assert(keys.reverse() =~= seq![k] + front.reverse());
        lemma_rounds_first(r2, l2, k, front.reverse());
        lemma_xor_cancel(l1, cipher(r1, k));
        lemma_rounds_reverse(left, right, front);
    }
}

/// Deciphering with a key schedule undoes enciphering with it, and enciphering undoes
/// deciphering: running the keys in reverse order inverts DES with those keys, whatever
/// the keys and the block.
pub proof fn lemma_feistel_inverse(block: u64, keys: Seq<u64>)
    ensures
        feistel(feistel(block, keys), keys.reverse()) == block,
        feistel(feistel(block, keys.reverse()), keys) == block,
{
    lemma_feistel_reverse_undoes(block, keys);
    lemma_feistel_reverse_undoes(block, keys.reverse());
    assert(keys.reverse().reverse() =~= keys);
}

proof fn lemma_feistel_reverse_undoes(block: u64, keys: Seq<u64>)
    ensures
        feistel(feistel(block, keys), keys.reverse()) == block,
{
    let y = permuted(block, 64, IP@) as u64;
    let (l0, r0) = halves(y);
    let (l, r) = rounds(l0, r0, keys);
    let c = feistel(block, keys);
    let j = joined_halves(r, l);
    lemma_initial_permutation_inverse(j);
    lemma_initial_permutation_inverse(block);
    assert(permuted(c, 64, IP@) as u64 == j);
    lemma_halves_inverse(j, r, l);
    lemma_rounds_reverse(l0, r0, keys);
    lemma_halves_inverse(y, l0, r0);
}

/// `decipher_block` undoes `encipher_block` with the same key schedule, and
/// `encipher_block` undoes `decipher_block`.
pub proof fn lemma_decipher_undoes_encipher(block: u64, key_schedule: [u64; 16])
    ensures
        feistel(feistel(block, key_schedule@), key_schedule@.reverse()) == block,
        feistel(feistel(block, key_schedule@.reverse()), key_schedule@) == block,
{
    lemma_feistel_inverse(block, key_schedule@);
}

/// Complementing a block complements both its halves, and joining complemented halves
/// gives the complemented block.
pub proof fn lemma_halves_complement(block: u64, left: u32, right: u32)
    by (bit_vector)
    ensures
        halves(!block).0 == !halves(block).0,
        halves(!block).1 == !halves(block).1,
        joined_halves(!left, !right) == !joined_halves(left, right),
{
}

/// Keys that are the complements of others in their 48 bits.
pub open spec fn complemented_keys(keys: Seq<u64>, keys2: Seq<u64>) -> bool {
    keys2.len() == keys.len() && forall|i: int|
        0 <= i < keys.len() ==> #[trigger] keys2[i] == keys[i] ^ 0xffff_ffff_ffffu64
}

/// With complemented halves and complemented round keys, every round gives the complement
/// of what it gives otherwise.
pub proof fn lemma_rounds_complement(left: u32, right: u32, keys: Seq<u64>, keys2: Seq<u64>)
    requires
        complemented_keys(keys, keys2),
    ensures
        rounds(!left, !right, keys2) == (!rounds(left, right, keys).0, !rounds(left, right, keys).1),
    decreases keys.len(),
{
    if keys.len() > 0 {
        let front = keys.drop_last();
        let front2 = keys2.drop_last();
        assert(complemented_keys(front, front2)) by {
            assert forall|i: int| 0 <= i < front.len() implies #[trigger] front2[i] == front[i]
                ^ 0xffff_ffff_ffffu64 by {
                assert(keys2[i] == keys[i] ^ 0xffff_ffff_ffffu64);
            }
        }
        lemma_rounds_complement(left, right, front, front2);
        let (l, r) = rounds(left, right, front);
        let k = keys.last();
        assert(keys2.last() == k ^ 0xffff_ffff_ffffu64);
        lemma_cipher_complement(r, k);
        lemma_complement_u32(l, cipher(r, k));
    }
}

/// The complementation property of DES: complementing the block and the 48 bits of every
/// round key complements the result. With `ks2[i] == ks[i] ^ 0xFFFF_FFFF_FFFF` for every
/// round, `encipher_block(&!block, &ks2) == !encipher_block(&block, &ks)`, and the same
/// for `decipher_block`.
pub proof fn lemma_complementation(block: u64, keys: Seq<u64>, keys2: Seq<u64>)
    requires
        complemented_keys(keys, keys2),
    ensures
        feistel(!block, keys2) == !feistel(block, keys),
        feistel(!block, keys2.reverse()) == !feistel(block, keys.reverse()),
{
    lemma_feistel_complement(block, keys, keys2);
    assert(complemented_keys(keys.reverse(), keys2.reverse()));
    lemma_feistel_complement(block, keys.reverse(), keys2.reverse());
}

proof fn lemma_feistel_complement(block: u64, keys: Seq<u64>, keys2: Seq<u64>)
    requires
        complemented_keys(keys, keys2),
    ensures
        feistel(!block, keys2) == !feistel(block, keys),
{
    lemma_ip_tables();
    lemma_permute_64_linear(block, 0, IP@);
    let y = permuted(block, 64, IP@) as u64;
    let (l0, r0) = halves(y);
    lemma_halves_complement(y, 0, 0);
    lemma_rounds_complement(l0, r0, keys, keys2);
    let (l, r) = rounds(l0, r0, keys);
    lemma_halves_complement(0, r, l);
    lemma_permute_64_linear(joined_halves(r, l), 0, IIP@);
}

/// With the key complemented, DES gives the complement of the block's result with the
/// block complemented: `encipher_block(&!block, &generate_key_schedule(&!key)) ==
/// !encipher_block(&block, &generate_key_schedule(&key))`, and the same for deciphering.
pub proof fn lemma_des_complementation(block: u64, key: u64)
    ensures
        feistel(!block, key_schedule(!key)) == !feistel(block, key_schedule(key)),
        feistel(!block, key_schedule(!key).reverse()) == !feistel(block, key_schedule(key).reverse()),
{
    lemma_key_schedule_complement(key);
    lemma_complementation(block, key_schedule(key), key_schedule(!key));
}

} // verus!
