use des::demo::{bit_rows, encrypt_and_decrypt, round_trip};
use des::{decipher_block, encipher_block, generate_key_schedule};

#[test]
fn bit_rows_of_one() {
    let rows = bit_rows(&1);
    assert_eq!(rows.len(), 8);
    for row in rows.iter().take(7) {
        assert_eq!(row, "00000000");
    }
    assert_eq!(rows[7], "00000001");
}

#[test]
fn bit_rows_most_significant_first() {
    let rows = bit_rows(&0x8001_0203_0405_06FF);
    assert_eq!(rows, vec!["10000000", "00000001", "00000010", "00000011", "00000100", "00000101", "00000110", "11111111"]);
}

#[test]
fn round_trip_gives_message_back() {
    let run = round_trip(0x1334_5779_9BBC_DFF1, 0x0123_4567_89AB_CDEF);
    assert_eq!(run.encrypted, 0x85E8_1354_0F0A_B405);
    assert_eq!(run.decrypted, 0x0123_4567_89AB_CDEF);
    assert_eq!(run.key, 0x1334_5779_9BBC_DFF1);
}

#[test]
fn demonstration_with_any_key() {
    let run = encrypt_and_decrypt(0x0e32_9232_ea6d_0d73);
    assert_eq!(run.key, 0x0e32_9232_ea6d_0d73);
    assert_eq!(run.message, 1);
    assert_eq!(run.decrypted, 1);
    let ks = generate_key_schedule(&run.key);
    assert_eq!(encipher_block(&1, &ks), run.encrypted);
    assert_eq!(decipher_block(&run.encrypted, &ks), 1);
}
