//! DES (the Data Encryption Standard) on single 64-bit blocks: the initial permutation and
//! its inverse, the key schedule, the cipher function f, and enciphering and deciphering,
//! with the reading of known-answer test files (`kat`) and the computing part of a small
//! demonstration (`demo`).

pub mod bits;
pub mod cipher;
pub mod demo;
pub mod feistel;
pub mod kat;
pub mod key_schedule;
pub mod permute;
pub mod tables;
pub mod text;

pub use cipher::{
    cipher_function, concatenate_4_bit_blocks, expand_block_48, extract_6_bit_groups,
    reduce_bit_group,
};
pub use feistel::{combine_2_32_bit_blocks, decipher_block, divide_64_bit_block, encipher_block};
pub use key_schedule::{circular_left_shift_28, concatenate_28_bit_blocks, generate_key_schedule};
pub use permute::{
    initial_permutation, inverted_permutation, permute_56_block_to_48, permute_block_28,
    permute_block_32, permute_block_48, permute_block_64,
};
