use des::tables::{E_BIT_SELECTION_TABLE, IIP, IP, S1, S5};
use des::{
    cipher_function, concatenate_4_bit_blocks, decipher_block, encipher_block, expand_block_48,
    extract_6_bit_groups, generate_key_schedule, initial_permutation, inverted_permutation,
    permute_block_32, permute_block_48, permute_block_64, reduce_bit_group,
};

const KEY: u64 = 0x1334_5779_9BBC_DFF1;
const MESSAGE: u64 = 0x0123_4567_89AB_CDEF;

#[test]
fn known_answer_enciphering() {
    let ks = generate_key_schedule(&KEY);
    assert_eq!(encipher_block(&MESSAGE, &ks), 0x85E8_1354_0F0A_B405);
}

#[test]
fn known_answer_deciphering() {
    let ks = generate_key_schedule(&KEY);
    assert_eq!(decipher_block(&0x85E8_1354_0F0A_B405, &ks), MESSAGE);
}

#[test]
fn known_answer_variable_plaintext() {
    let ks = generate_key_schedule(&0x0101_0101_0101_0101);
    assert_eq!(encipher_block(&0x8000_0000_0000_0000, &ks), 0x95F8_A5E5_DD31_D900);
    assert_eq!(decipher_block(&0x95F8_A5E5_DD31_D900, &ks), 0x8000_0000_0000_0000);
}

#[test]
fn key_schedule_first_and_last_keys() {
    let ks = generate_key_schedule(&KEY);
    assert_eq!(ks[0], 0x1B02_EFFC_7072);
    assert_eq!(ks[15], 0xCB3D_8B0E_17F5);
    for k in ks.iter() {
        assert!(*k < (1u64 << 48));
    }
}

#[test]
fn initial_permutation_known_value() {
    assert_eq!(initial_permutation(&MESSAGE), 0xCC00_CCFF_F0AA_F0AA);
    assert_eq!(inverted_permutation(&0xCC00_CCFF_F0AA_F0AA), MESSAGE);
}

#[test]
fn initial_permutation_inverse_round_trip() {
    for &x in [0u64, 1, u64::MAX, 0xdead_beef_0bad_f00d, 0x8000_0000_0000_0001].iter() {
        assert_eq!(inverted_permutation(&initial_permutation(&x)), x);
        assert_eq!(initial_permutation(&inverted_permutation(&x)), x);
    }
}

#[test]
fn permute_block_64_single_bits() {
    // bit 58 of the input (from the left, from 1) becomes bit 1 of the output
    assert_eq!(permute_block_64(&(1u64 << (64 - 58)), &IP), 1u64 << 63);
    // bit 1 of the input is named by entry 58 of the inverse permutation
    assert_eq!(permute_block_64(&(1u64 << 63), &IIP), 1u64 << (64 - 58));
}

#[test]
fn expansion_known_value() {
    assert_eq!(expand_block_48(&0xF0AA_F0AA), 0x7A15_557A_1555);
    assert_eq!(permute_block_48(&0xF0AA_F0AA, &E_BIT_SELECTION_TABLE), 0x7A15_557A_1555);
    assert_eq!(expand_block_48(&0), 0);
    assert_eq!(expand_block_48(&u32::MAX), 0xFFFF_FFFF_FFFF);
}

#[test]
fn cipher_function_known_value() {
    assert_eq!(cipher_function(&0xF0AA_F0AA, &0x1B02_EFFC_7072), 0x234A_A9BB);
}

#[test]
fn selection_function_lookup() {
    // row 01, column 1101
    assert_eq!(reduce_bit_group(&0b011011, &S1), 5);
    assert_eq!(reduce_bit_group(&0, &S1), 14);
    assert_eq!(reduce_bit_group(&0b111111, &S5), 3);
    // the two high bits of the byte are not part of the group
    assert_eq!(reduce_bit_group(&0b1101_1011, &S1), 5);
}

#[test]
fn six_bit_groups_left_to_right() {
    let groups = extract_6_bit_groups(&0x7A15_557A_1555);
    assert_eq!(groups, [0b011110, 0b100001, 0b010101, 0b010101, 0b011110, 0b100001, 0b010101, 0b010101]);
    // bits above the low 48 are ignored
    assert_eq!(extract_6_bit_groups(&0xFFFF_0000_0000_0000), [0; 8]);
}

#[test]
fn four_bit_blocks_joined() {
    assert_eq!(concatenate_4_bit_blocks(&[1, 2, 3, 4, 5, 6, 7, 8]), 0x1234_5678);
    assert_eq!(concatenate_4_bit_blocks(&[15; 8]), u32::MAX);
    // a wider value spills into the place to its left
    assert_eq!(concatenate_4_bit_blocks(&[0, 0, 0, 0, 0, 0, 0, 0x1F]), 0x1F);
    assert_eq!(concatenate_4_bit_blocks(&[0, 0, 0, 0, 0, 0, 0x10, 0]), 0x100);
}

#[test]
fn permute_block_32_identity_and_reverse() {
    let mut identity = [0u8; 32];
    let mut reverse = [0u8; 32];
    for i in 0..32 {
        identity[i] = (i + 1) as u8;
        reverse[i] = (32 - i) as u8;
    }
    assert_eq!(permute_block_32(&0x1234_5678, &identity), 0x1234_5678);
    assert_eq!(permute_block_32(&1, &reverse), 0x8000_0000);
}

#[test]
fn decipher_undoes_encipher() {
    for &key in [0u64, KEY, u64::MAX, 0x0e32_9232_ea6d_0d73].iter() {
        let ks = generate_key_schedule(&key);
        for &m in [0u64, 1, MESSAGE, u64::MAX, 0x8787_8787_8787_8787].iter() {
            let c = encipher_block(&m, &ks);
            assert_eq!(decipher_block(&c, &ks), m);
            assert_eq!(encipher_block(&decipher_block(&m, &ks), &ks), m);
        }
    }
}

#[test]
fn deciphering_is_enciphering_with_reversed_keys() {
    let ks = generate_key_schedule(&KEY);
    let mut reversed = ks;
    reversed.reverse();
    assert_eq!(decipher_block(&MESSAGE, &ks), encipher_block(&MESSAGE, &reversed));
}

#[test]
fn parity_bits_do_not_matter() {
    for &key in [KEY, u64::MAX, 0x0123_4567_89ab_cdef].iter() {
        assert_eq!(generate_key_schedule(&key), generate_key_schedule(&(key & 0xFEFE_FEFE_FEFE_FEFE)));
    }
    assert_eq!(generate_key_schedule(&0x0101_0101_0101_0101), generate_key_schedule(&0));
}

#[test]
fn complemented_key_complements_round_keys() {
    let ks = generate_key_schedule(&KEY);
    let ks2 = generate_key_schedule(&!KEY);
    for i in 0..16 {
        assert_eq!(ks2[i], ks[i] ^ 0xFFFF_FFFF_FFFF);
    }
}

#[test]
fn complementation_property() {
    let ks = generate_key_schedule(&KEY);
    let ks2 = generate_key_schedule(&!KEY);
    assert_eq!(encipher_block(&!MESSAGE, &ks2), !encipher_block(&MESSAGE, &ks));
    assert_eq!(decipher_block(&!MESSAGE, &ks2), !decipher_block(&MESSAGE, &ks));
    assert_eq!(encipher_block(&!MESSAGE, &ks2), !0x85E8_1354_0F0A_B405u64);
}

#[test]
fn cipher_function_complement_and_high_key_bits() {
    let block: u32 = 0xF0AA_F0AA;
    let key: u64 = 0x1B02_EFFC_7072;
    assert_eq!(cipher_function(&!block, &(key ^ 0xFFFF_FFFF_FFFF)), cipher_function(&block, &key));
    assert_eq!(cipher_function(&block, &(key | 0xABCD_0000_0000_0000)), cipher_function(&block, &key));
}

#[test]
fn permutation_commutes_with_xor_and_complement() {
    let a: u64 = 0xdead_beef_0123_4567;
    let b: u64 = 0x0f0f_1234_ffff_0001;
    assert_eq!(permute_block_64(&(a ^ b), &IP), permute_block_64(&a, &IP) ^ permute_block_64(&b, &IP));
    assert_eq!(permute_block_64(&0, &IIP), 0);
    assert_eq!(permute_block_64(&!a, &IIP), !permute_block_64(&a, &IIP));
}
