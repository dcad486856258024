use vstd::prelude::*;

use crate::bits::des_bit;
use crate::feistel::{decipher_block, encipher_block, feistel, lemma_feistel_inverse};
use crate::key_schedule::{generate_key_schedule, key_schedule};
use crate::text::push_char;

verus! {

/// The character that shows bit `i` (from the left) of a 64-bit block.
pub open spec fn bit_char(value: u64, i: int) -> char {
    if des_bit(value, 64, i) {
        '1'
    } else {
        '0'
    }
}

/// The bits of a 64-bit block as eight rows of `0` and `1`, one row per byte, the most
/// significant byte and bit first.
pub fn bit_rows(value: &u64) -> (rows: Vec<String>)
    ensures
        rows.len() == 8,
        forall|r: int|
            0 <= r < 8 ==> #[trigger] rows@[r]@ == Seq::new(8, |j: int| bit_char(*value, 8 * r + j)),
{
    let mut rows: Vec<String> = Vec::new();
    // one byte per row
    let mut i: u64 = 8;
    while i > 0
        invariant
            i <= 8,
            rows.len() == 8 - i,
            forall|r: int|
                0 <= r < 8 - i ==> #[trigger] rows@[r]@ == Seq::new(
                    8,
                    |j: int| bit_char(*value, 8 * r + j),
                ),
        decreases i,
    {
        i = i - 1;
        let byte_to_print = ((*value >> (i * 8)) & 0xFF) as u8;
        let ghost row = 7 - i as int;
        let mut line = String::new();
        // each bit in the byte
        let mut j: u8 = 8;
        while j > 0
            invariant
                j <= 8,
                i < 8,
                row == 7 - i,
                byte_to_print == ((*value >> (i * 8)) & 0xFF) as u8,
                line@ == Seq::new((8 - j) as nat, |k: int| bit_char(*value, 8 * row + k)),
            decreases j,
        {
            j = j - 1;
            let bit = (byte_to_print >> j) & 1;
            let ghost k = 7 - j as int;
            let ghost v = *value;
            let ghost shift = (63 - (8 * row + k)) as u64;
            assert((bit == 1) == ((v >> shift) & 1 == 1)) by (bit_vector)
                requires
                    bit == (byte_to_print >> j) & 1,
                    byte_to_print == ((v >> (i * 8)) & 0xFF) as u8,
                    j < 8,
                    i < 8,
                    shift == i * 8 + j,
            ;
            let ghost before = line@;
            if bit == 1 {
                push_char(&mut line, '1');
            } else {
                push_char(&mut line, '0');
            }
            assert(line@ =~= Seq::new((8 - j) as nat, |k: int| bit_char(*value, 8 * row + k)));
        }
        rows.push(line);
    }
    rows
}

/// One run of the demonstration: a key, a message, the message enciphered, and that
/// deciphered again.
#[derive(Clone, Copy, Debug, PartialEq, Eq)]
pub struct RoundTrip {
    pub key: u64,
    pub message: u64,
    pub encrypted: u64,
    pub decrypted: u64,
}

/// Enciphers `message` under `key` and deciphers the result again; deciphering gives the
/// message back.
pub fn round_trip(key: u64, message: u64) -> (run: RoundTrip)
    ensures
        run.key == key,
        run.message == message,
        run.encrypted == feistel(message, key_schedule(key)),
        run.decrypted == feistel(run.encrypted, key_schedule(key).reverse()),
        run.decrypted == message,
{
    // generate the key schedule
    let ks = generate_key_schedule(&key);
    // encrypt the message
    let encrypted = encipher_block(&message, &ks);
    // decrypt the message
    let decrypted = decipher_block(&encrypted, &ks);
    proof {
        lemma_feistel_inverse(message, key_schedule(key));
    }
    RoundTrip { key, message, encrypted, decrypted }
}

/// The demonstration: the message 1 enciphered and deciphered under `key` (drawn at
/// random by the caller).
pub fn encrypt_and_decrypt(key: u64) -> (run: RoundTrip)
    ensures
        run.key == key,
        run.message == 1,
        run.encrypted == feistel(1, key_schedule(key)),
        run.decrypted == 1,
{
    // message to encipher
    let msg: u64 = 1;
    round_trip(key, msg)
}

} // verus!
