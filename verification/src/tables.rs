use vstd::prelude::*;

verus! {

/// Initial permutation (IP): output bit `i` is input bit `IP[i]`, bits numbered 1 to 64 from the left.
pub const IP: [u8; 64] = [
    58, 50, 42, 34, 26, 18, 10,  2,
    60, 52, 44, 36, 28, 20, 12,  4,
    62, 54, 46, 38, 30, 22, 14,  6,
    64, 56, 48, 40, 32, 24, 16,  8,
    57, 49, 41, 33, 25, 17,  9,  1,
    59, 51, 43, 35, 27, 19, 11,  3,
    61, 53, 45, 37, 29, 21, 13,  5,
    63, 55, 47, 39, 31, 23, 15,  7,
];

/// Inverse of the initial permutation (IP^-1).
pub const IIP: [u8; 64] = [
    40,  8, 48, 16, 56, 24, 64, 32,
    39,  7, 47, 15, 55, 23, 63, 31,
    38,  6, 46, 14, 54, 22, 62, 30,
    37,  5, 45, 13, 53, 21, 61, 29,
    36,  4, 44, 12, 52, 20, 60, 28,
    35,  3, 43, 11, 51, 19, 59, 27,
    34,  2, 42, 10, 50, 18, 58, 26,
    33,  1, 41,  9, 49, 17, 57, 25,
];

/// Permuted choice 1, the half that forms the register C of the key schedule.
pub const PC1C: [u8; 28] = [
    57, 49, 41, 33, 25, 17,  9,
     1, 58, 50, 42, 34, 26, 18,
    10,  2, 59, 51, 43, 35, 27,
    19, 11,  3, 60, 52, 44, 36,
];

/// Permuted choice 1, the half that forms the register D of the key schedule.
pub const PC1D: [u8; 28] = [
    63, 55, 47, 39, 31, 23, 15,
     7, 62, 54, 46, 38, 30, 22,
    14,  6, 61, 53, 45, 37, 29,
    21, 13,  5, 28, 20, 12,  4,
];

/// Permuted choice 2: selects the 48 bits of a round key from the 56 bits of C and D.
pub const PC2: [u8; 48] = [
    14, 17, 11, 24,  1,  5,
     3, 28, 15,  6, 21, 10,
    23, 19, 12,  4, 26,  8,
    16,  7, 27, 20, 13,  2,
    41, 52, 31, 37, 47, 55,
    30, 40, 51, 45, 33, 48,
    44, 49, 39, 56, 34, 53,
    46, 42, 50, 36, 29, 32,
];

/// Number of left rotations of C and D before each of the 16 rounds.
pub const LSS: [u8; 16] = [
     1,  1,  2,  2,
     2,  2,  2,  2,
     1,  2,  2,  2,
     2,  2,  2,  1,
];

/// Expansion E: selects 48 bits from a 32-bit half block.
pub const E_BIT_SELECTION_TABLE: [u8; 48] = [
    32,  1,  2,  3,  4,  5,
     4,  5,  6,  7,  8,  9,
     8,  9, 10, 11, 12, 13,
    12, 13, 14, 15, 16, 17,
    16, 17, 18, 19, 20, 21,
    20, 21, 22, 23, 24, 25,
    24, 25, 26, 27, 28, 29,
    28, 29, 30, 31, 32,  1,
];

/// Selection function S1: maps a 6-bit group to a 4-bit value, row-major in 4 rows of 16.
pub const S1: [u8; 64] = [
    14,  4, 13,  1,  2, 15, 11,  8,  3, 10,  6, 12,  5,  9,  0,  7,
     0, 15,  7,  4, 14,  2, 13,  1, 10,  6, 12, 11,  9,  5,  3,  8,
     4,  1, 14,  8, 13,  6,  2, 11, 15, 12,  9,  7,  3, 10,  5,  0,
    15, 12,  8,  2,  4,  9,  1,  7,  5, 11,  3, 14, 10,  0,  6, 13,
];

/// Selection function S2: maps a 6-bit group to a 4-bit value, row-major in 4 rows of 16.
pub const S2: [u8; 64] = [
    15,  1,  8, 14,  6, 11,  3,  4,  9,  7,  2, 13, 12,  0,  5, 10,
     3, 13,  4,  7, 15,  2,  8, 14, 12,  0,  1, 10,  6,  9, 11,  5,
     0, 14,  7, 11, 10,  4, 13,  1,  5,  8, 12,  6,  9,  3,  2, 15,
    13,  8, 10,  1,  3, 15,  4,  2, 11,  6,  7, 12,  0,  5, 14,  9,
];

/// Selection function S3: maps a 6-bit group to a 4-bit value, row-major in 4 rows of 16.
pub const S3: [u8; 64] = [
    10,  0,  9, 14,  6,  3, 15,  5,  1, 13, 12,  7, 11,  4,  2,  8,
    13,  7,  0,  9,  3,  4,  6, 10,  2,  8,  5, 14, 12, 11, 15,  1,
    13,  6,  4,  9,  8, 15,  3,  0, 11,  1,  2, 12,  5, 10, 14,  7,
     1, 10, 13,  0,  6,  9,  8,  7,  4, 15, 14,  3, 11,  5,  2, 12,
];

/// Selection function S4: maps a 6-bit group to a 4-bit value, row-major in 4 rows of 16.
pub const S4: [u8; 64] = [
     7, 13, 14,  3,  0,  6,  9, 10,  1,  2,  8,  5, 11, 12,  4, 15,
    13,  8, 11,  5,  6, 15,  0,  3,  4,  7,  2, 12,  1, 10, 14,  9,
    10,  6,  9,  0, 12, 11,  7, 13, 15,  1,  3, 14,  5,  2,  8,  4,
     3, 15,  0,  6, 10,  1, 13,  8,  9,  4,  5, 11, 12,  7,  2, 14,
];

/// Selection function S5: maps a 6-bit group to a 4-bit value, row-major in 4 rows of 16.
pub const S5: [u8; 64] = [
     2, 12,  4,  1,  7, 10, 11,  6,  8,  5,  3, 15, 13,  0, 14,  9,
    14, 11,  2, 12,  4,  7, 13,  1,  5,  0, 15, 10,  3,  9,  8,  6,
     4,  2,  1, 11, 10, 13,  7,  8, 15,  9, 12,  5,  6,  3,  0, 14,
    11,  8, 12,  7,  1, 14,  2, 13,  6, 15,  0,  9, 10,  4,  5,  3,
];

/// Selection function S6: maps a 6-bit group to a 4-bit value, row-major in 4 rows of 16.
pub const S6: [u8; 64] = [
    12,  1, 10, 15,  9,  2,  6,  8,  0, 13,  3,  4, 14,  7,  5, 11,
    10, 15,  4,  2,  7, 12,  9,  5,  6,  1, 13, 14,  0, 11,  3,  8,
     9, 14, 15,  5,  2,  8, 12,  3,  7,  0,  4, 10,  1, 13, 11,  6,
     4,  3,  2, 12,  9,  5, 15, 10, 11, 14,  1,  7,  6,  0,  8, 13,
];

/// Selection function S7: maps a 6-bit group to a 4-bit value, row-major in 4 rows of 16.
pub const S7: [u8; 64] = [
     4, 11,  2, 14, 15,  0,  8, 13,  3, 12,  9,  7,  5, 10,  6,  1,
    13,  0, 11,  7,  4,  9,  1, 10, 14,  3,  5, 12,  2, 15,  8,  6,
     1,  4, 11, 13, 12,  3,  7, 14, 10, 15,  6,  8,  0,  5,  9,  2,
     6, 11, 13,  8,  1,  4, 10,  7,  9,  5,  0, 15, 14,  2,  3, 12,
];

/// Selection function S8: maps a 6-bit group to a 4-bit value, row-major in 4 rows of 16.
pub const S8: [u8; 64] = [
    13,  2,  8,  4,  6, 15, 11,  1, 10,  9,  3, 14,  5,  0, 12,  7,
     1, 15, 13,  8, 10,  3,  7,  4, 12,  5,  6, 11,  0, 14,  9,  2,
     7, 11,  4,  1,  9, 12, 14,  2,  0,  6, 10, 13, 15,  3,  5,  8,
     2,  1, 14,  7,  4, 10,  8, 13, 15, 12,  9,  0,  3,  5,  6, 11,
];

/// The eight selection functions, in the order in which they apply to the 6-bit groups.
pub const LOOKUP_TABLES: [[u8; 64]; 8] = [S1, S2, S3, S4, S5, S6, S7, S8];

/// Permutation P applied to the output of the S-boxes.
pub const CIPHER_PERMUTATION: [u8; 32] = [
    16,  7, 20, 21,
    29, 12, 28, 17,
     1, 15, 23, 26,
     5, 18, 31, 10,
     2,  8, 24, 14,
    32, 27,  3,  9,
    19, 13, 30,  6,
    22, 11,  4, 25,
];

/// Every entry of IP and IP^-1 names one of the 64 bits of a block, and each undoes the other.
pub proof fn lemma_ip_tables()
    ensures
        forall|i: int|
            0 <= i < 64 ==> 1 <= #[trigger] IP@[i] <= 64 && 1 <= IIP@[i] <= 64 && IP@[IIP@[i] - 1]
                == i + 1 && IIP@[IP@[i] - 1] == i + 1,
{
    assert forall|i: int| 0 <= i < 64 implies 1 <= #[trigger] IP@[i] <= 64 && 1 <= IIP@[i] <= 64
        && IP@[IIP@[i] - 1] == i + 1 && IIP@[IP@[i] - 1] == i + 1 by {
        assert(
            i == 0 || i == 1 || i == 2 || i == 3 || i == 4 || i == 5 || i == 6 || i == 7
            || i == 8 || i == 9 || i == 10 || i == 11 || i == 12 || i == 13 || i == 14
            || i == 15 || i == 16 || i == 17 || i == 18 || i == 19 || i == 20 || i == 21
            || i == 22 || i == 23 || i == 24 || i == 25 || i == 26 || i == 27 || i == 28
            || i == 29 || i == 30 || i == 31 || i == 32 || i == 33 || i == 34 || i == 35
            || i == 36 || i == 37 || i == 38 || i == 39 || i == 40 || i == 41 || i == 42
            || i == 43 || i == 44 || i == 45 || i == 46 || i == 47 || i == 48 || i == 49
            || i == 50 || i == 51 || i == 52 || i == 53 || i == 54 || i == 55 || i == 56
            || i == 57 || i == 58 || i == 59 || i == 60 || i == 61 || i == 62 || i == 63
        );
    }
}

/// Every entry of permuted choice 1 names one of the 64 bits of a key, and none names a
/// parity bit (bits 8, 16, ..., 64).
pub proof fn lemma_pc1_tables()
    ensures
        forall|i: int|
            0 <= i < 28 ==> 1 <= #[trigger] PC1C@[i] <= 64 && 1 <= PC1D@[i] <= 64 && PC1C@[i]
                % 8 != 0 && PC1D@[i] % 8 != 0,
{
    assert forall|i: int| 0 <= i < 28 implies 1 <= #[trigger] PC1C@[i] <= 64 && 1 <= PC1D@[i]
        <= 64 && PC1C@[i] % 8 != 0 && PC1D@[i] % 8 != 0 by {
        assert(
            i == 0 || i == 1 || i == 2 || i == 3 || i == 4 || i == 5 || i == 6 || i == 7
            || i == 8 || i == 9 || i == 10 || i == 11 || i == 12 || i == 13 || i == 14
            || i == 15 || i == 16 || i == 17 || i == 18 || i == 19 || i == 20 || i == 21
            || i == 22 || i == 23 || i == 24 || i == 25 || i == 26 || i == 27
        );
    }
}

/// Every entry of permuted choice 2 names one of the 56 bits of C and D.
pub proof fn lemma_pc2_table()
    ensures
        forall|i: int| 0 <= i < 48 ==> 1 <= #[trigger] PC2@[i] <= 56,
{
    assert forall|i: int| 0 <= i < 48 implies 1 <= #[trigger] PC2@[i] <= 56 by {
        assert(
            i == 0 || i == 1 || i == 2 || i == 3 || i == 4 || i == 5 || i == 6 || i == 7
            || i == 8 || i == 9 || i == 10 || i == 11 || i == 12 || i == 13 || i == 14
            || i == 15 || i == 16 || i == 17 || i == 18 || i == 19 || i == 20 || i == 21
            || i == 22 || i == 23 || i == 24 || i == 25 || i == 26 || i == 27 || i == 28
            || i == 29 || i == 30 || i == 31 || i == 32 || i == 33 || i == 34 || i == 35
            || i == 36 || i == 37 || i == 38 || i == 39 || i == 40 || i == 41 || i == 42
            || i == 43 || i == 44 || i == 45 || i == 46 || i == 47
        );
    }
}

/// Every entry of the expansion names one of the 32 bits of a half block.
pub proof fn lemma_expansion_table()
    ensures
        forall|i: int| 0 <= i < 48 ==> 1 <= #[trigger] E_BIT_SELECTION_TABLE@[i] <= 32,
{
    assert forall|i: int| 0 <= i < 48 implies 1 <= #[trigger] E_BIT_SELECTION_TABLE@[i] <= 32 by {
        assert(
            i == 0 || i == 1 || i == 2 || i == 3 || i == 4 || i == 5 || i == 6 || i == 7
            || i == 8 || i == 9 || i == 10 || i == 11 || i == 12 || i == 13 || i == 14
            || i == 15 || i == 16 || i == 17 || i == 18 || i == 19 || i == 20 || i == 21
            || i == 22 || i == 23 || i == 24 || i == 25 || i == 26 || i == 27 || i == 28
            || i == 29 || i == 30 || i == 31 || i == 32 || i == 33 || i == 34 || i == 35
            || i == 36 || i == 37 || i == 38 || i == 39 || i == 40 || i == 41 || i == 42
            || i == 43 || i == 44 || i == 45 || i == 46 || i == 47
        );
    }
}

/// Every entry of P names one of the 32 bits of the S-box output.
pub proof fn lemma_cipher_permutation_table()
    ensures
        forall|i: int| 0 <= i < 32 ==> 1 <= #[trigger] CIPHER_PERMUTATION@[i] <= 32,
{
    assert forall|i: int| 0 <= i < 32 implies 1 <= #[trigger] CIPHER_PERMUTATION@[i] <= 32 by {
        assert(
            i == 0 || i == 1 || i == 2 || i == 3 || i == 4 || i == 5 || i == 6 || i == 7
            || i == 8 || i == 9 || i == 10 || i == 11 || i == 12 || i == 13 || i == 14
            || i == 15 || i == 16 || i == 17 || i == 18 || i == 19 || i == 20 || i == 21
            || i == 22 || i == 23 || i == 24 || i == 25 || i == 26 || i == 27 || i == 28
            || i == 29 || i == 30 || i == 31
        );
    }
}

/// Every selection function gives a 4-bit value.
pub proof fn lemma_selection_values()
    ensures
        forall|j: int, i: int| 0 <= j < 8 && 0 <= i < 64 ==> #[trigger] LOOKUP_TABLES@[j]@[i] < 16,
{
    assert forall|i: int| 0 <= i < 64 implies #[trigger] S1@[i] < 16 && S2@[i] < 16 && S3@[i] < 16 && S4@[i] < 16 && S5@[i] < 16 && S6@[i] < 16 && S7@[i] < 16 && S8@[i] < 16 by {
        assert(
            i == 0 || i == 1 || i == 2 || i == 3 || i == 4 || i == 5 || i == 6 || i == 7
            || i == 8 || i == 9 || i == 10 || i == 11 || i == 12 || i == 13 || i == 14
            || i == 15 || i == 16 || i == 17 || i == 18 || i == 19 || i == 20 || i == 21
            || i == 22 || i == 23 || i == 24 || i == 25 || i == 26 || i == 27 || i == 28
            || i == 29 || i == 30 || i == 31 || i == 32 || i == 33 || i == 34 || i == 35
            || i == 36 || i == 37 || i == 38 || i == 39 || i == 40 || i == 41 || i == 42
            || i == 43 || i == 44 || i == 45 || i == 46 || i == 47 || i == 48 || i == 49
            || i == 50 || i == 51 || i == 52 || i == 53 || i == 54 || i == 55 || i == 56
            || i == 57 || i == 58 || i == 59 || i == 60 || i == 61 || i == 62 || i == 63
        );
    }
    assert forall|j: int, i: int| 0 <= j < 8 && 0 <= i < 64 implies #[trigger] LOOKUP_TABLES@[j]@[i]
        < 16 by {
        assert(S1@[i] < 16);
        assert(j == 0 || j == 1 || j == 2 || j == 3 || j == 4 || j == 5 || j == 6 || j == 7);
    }
}

/// Each row of each selection function is a permutation of 0 to 15: no value appears
/// twice in a row (and, the values being below 16, each appears once).
pub proof fn lemma_selection_rows_are_permutations()
    ensures
        forall|j: int, r: int, c1: int, c2: int|
            0 <= j < 8 && 0 <= r < 4 && 0 <= c1 < 16 && 0 <= c2 < 16 && c1 != c2
                ==> #[trigger] LOOKUP_TABLES@[j]@[16 * r + c1] != #[trigger] LOOKUP_TABLES@[j]@[16 * r
                + c2],
{
    lemma_rows_distinct_s1();
    lemma_rows_distinct_s2();
    lemma_rows_distinct_s3();
    lemma_rows_distinct_s4();
    lemma_rows_distinct_s5();
    lemma_rows_distinct_s6();
    lemma_rows_distinct_s7();
    lemma_rows_distinct_s8();
    assert forall|j: int, r: int, c1: int, c2: int|
        0 <= j < 8 && 0 <= r < 4 && 0 <= c1 < 16 && 0 <= c2 < 16 && c1 != c2 implies #[trigger] LOOKUP_TABLES@[j]@[16 * r + c1]
        != #[trigger] LOOKUP_TABLES@[j]@[16 * r + c2] by {
        assert(j == 0 || j == 1 || j == 2 || j == 3 || j == 4 || j == 5 || j == 6 || j == 7);
    }
}

/// Each row of S1 holds no value twice.
proof fn lemma_rows_distinct_s1()
    ensures
        forall|r: int, c1: int, c2: int|
            0 <= r < 4 && 0 <= c1 < 16 && 0 <= c2 < 16 && c1 != c2 ==> #[trigger] S1@[16 * r + c1]
                != #[trigger] S1@[16 * r + c2],
{
    let inverse = seq![
        14int, 3int, 4int, 8int, 1int, 12int, 10int, 15int, 7int, 13int, 9int, 6int,
        11int, 2int, 0int, 5int, 0int, 7int, 5int, 14int, 3int, 13int, 9int, 2int, 15int,
        12int, 8int, 11int, 10int, 6int, 4int, 1int, 15int, 1int, 6int, 12int, 0int,
        14int, 5int, 11int, 3int, 10int, 13int, 7int, 9int, 4int, 2int, 8int, 13int,
        6int, 3int, 10int, 4int, 8int, 14int, 7int, 2int, 5int, 12int, 9int, 1int, 15int,
        11int, 0int,
    ];
    assert forall|i: int| 0 <= i < 64 implies #[trigger] inverse[16 * (i / 16) + S1@[i]]
        == i % 16 by {
        assert(
            i == 0 || i == 1 || i == 2 || i == 3 || i == 4 || i == 5 || i == 6 || i == 7
            || i == 8 || i == 9 || i == 10 || i == 11 || i == 12 || i == 13 || i == 14
            || i == 15 || i == 16 || i == 17 || i == 18 || i == 19 || i == 20 || i == 21
            || i == 22 || i == 23 || i == 24 || i == 25 || i == 26 || i == 27 || i == 28
            || i == 29 || i == 30 || i == 31 || i == 32 || i == 33 || i == 34 || i == 35
            || i == 36 || i == 37 || i == 38 || i == 39 || i == 40 || i == 41 || i == 42
            || i == 43 || i == 44 || i == 45 || i == 46 || i == 47 || i == 48 || i == 49
            || i == 50 || i == 51 || i == 52 || i == 53 || i == 54 || i == 55 || i == 56
            || i == 57 || i == 58 || i == 59 || i == 60 || i == 61 || i == 62 || i == 63
        );
    }
    assert forall|r: int, c1: int, c2: int|
        0 <= r < 4 && 0 <= c1 < 16 && 0 <= c2 < 16 && c1 != c2 implies #[trigger] S1@[16 * r + c1]
        != #[trigger] S1@[16 * r + c2] by {
        assert(inverse[16 * ((16 * r + c1) / 16) + S1@[16 * r + c1]] == (16 * r + c1) % 16);
        assert(inverse[16 * ((16 * r + c2) / 16) + S1@[16 * r + c2]] == (16 * r + c2) % 16);
        assert((16 * r + c1) / 16 == r && (16 * r + c1) % 16 == c1);
        assert((16 * r + c2) / 16 == r && (16 * r + c2) % 16 == c2);
    }
}

/// Each row of S2 holds no value twice.
proof fn lemma_rows_distinct_s2()
    ensures
        forall|r: int, c1: int, c2: int|
            0 <= r < 4 && 0 <= c1 < 16 && 0 <= c2 < 16 && c1 != c2 ==> #[trigger] S2@[16 * r + c1]
                != #[trigger] S2@[16 * r + c2],
{
    let inverse = seq![
        13int, 1int, 10int, 6int, 7int, 14int, 4int, 9int, 2int, 8int, 15int, 5int,
        12int, 11int, 3int, 0int, 9int, 10int, 5int, 0int, 2int, 15int, 12int, 3int,
        6int, 13int, 11int, 14int, 8int, 1int, 7int, 4int, 0int, 7int, 14int, 13int,
        5int, 8int, 11int, 2int, 9int, 12int, 4int, 3int, 10int, 6int, 1int, 15int,
        12int, 3int, 7int, 4int, 6int, 13int, 9int, 10int, 1int, 15int, 2int, 8int,
        11int, 0int, 14int, 5int,
    ];
    assert forall|i: int| 0 <= i < 64 implies #[trigger] inverse[16 * (i / 16) + S2@[i]]
        == i % 16 by {
        assert(
            i == 0 || i == 1 || i == 2 || i == 3 || i == 4 || i == 5 || i == 6 || i == 7
            || i == 8 || i == 9 || i == 10 || i == 11 || i == 12 || i == 13 || i == 14
            || i == 15 || i == 16 || i == 17 || i == 18 || i == 19 || i == 20 || i == 21
            || i == 22 || i == 23 || i == 24 || i == 25 || i == 26 || i == 27 || i == 28
            || i == 29 || i == 30 || i == 31 || i == 32 || i == 33 || i == 34 || i == 35
            || i == 36 || i == 37 || i == 38 || i == 39 || i == 40 || i == 41 || i == 42
            || i == 43 || i == 44 || i == 45 || i == 46 || i == 47 || i == 48 || i == 49
            || i == 50 || i == 51 || i == 52 || i == 53 || i == 54 || i == 55 || i == 56
            || i == 57 || i == 58 || i == 59 || i == 60 || i == 61 || i == 62 || i == 63
        );
    }
    assert forall|r: int, c1: int, c2: int|
        0 <= r < 4 && 0 <= c1 < 16 && 0 <= c2 < 16 && c1 != c2 implies #[trigger] S2@[16 * r + c1]
        != #[trigger] S2@[16 * r + c2] by {
        assert(inverse[16 * ((16 * r + c1) / 16) + S2@[16 * r + c1]] == (16 * r + c1) % 16);
        assert(inverse[16 * ((16 * r + c2) / 16) + S2@[16 * r + c2]] == (16 * r + c2) % 16);
        assert((16 * r + c1) / 16 == r && (16 * r + c1) % 16 == c1);
        assert((16 * r + c2) / 16 == r && (16 * r + c2) % 16 == c2);
    }
}

/// Each row of S3 holds no value twice.
proof fn lemma_rows_distinct_s3()
    ensures
        forall|r: int, c1: int, c2: int|
            0 <= r < 4 && 0 <= c1 < 16 && 0 <= c2 < 16 && c1 != c2 ==> #[trigger] S3@[16 * r + c1]
                != #[trigger] S3@[16 * r + c2],
{
    let inverse = seq![
        1int, 8int, 14int, 5int, 13int, 7int, 4int, 11int, 15int, 2int, 0int, 12int,
        10int, 9int, 3int, 6int, 2int, 15int, 8int, 4int, 5int, 10int, 6int, 1int, 9int,
        3int, 7int, 13int, 12int, 0int, 11int, 14int, 7int, 9int, 10int, 6int, 2int,
        12int, 1int, 15int, 4int, 3int, 13int, 8int, 11int, 0int, 14int, 5int, 3int,
        0int, 14int, 11int, 8int, 13int, 4int, 7int, 6int, 5int, 1int, 12int, 15int,
        2int, 10int, 9int,
    ];
    assert forall|i: int| 0 <= i < 64 implies #[trigger] inverse[16 * (i / 16) + S3@[i]]
        == i % 16 by {
        assert(
            i == 0 || i == 1 || i == 2 || i == 3 || i == 4 || i == 5 || i == 6 || i == 7
            || i == 8 || i == 9 || i == 10 || i == 11 || i == 12 || i == 13 || i == 14
            || i == 15 || i == 16 || i == 17 || i == 18 || i == 19 || i == 20 || i == 21
            || i == 22 || i == 23 || i == 24 || i == 25 || i == 26 || i == 27 || i == 28
            || i == 29 || i == 30 || i == 31 || i == 32 || i == 33 || i == 34 || i == 35
            || i == 36 || i == 37 || i == 38 || i == 39 || i == 40 || i == 41 || i == 42
            || i == 43 || i == 44 || i == 45 || i == 46 || i == 47 || i == 48 || i == 49
            || i == 50 || i == 51 || i == 52 || i == 53 || i == 54 || i == 55 || i == 56
            || i == 57 || i == 58 || i == 59 || i == 60 || i == 61 || i == 62 || i == 63
        );
    }
    assert forall|r: int, c1: int, c2: int|
        0 <= r < 4 && 0 <= c1 < 16 && 0 <= c2 < 16 && c1 != c2 implies #[trigger] S3@[16 * r + c1]
        != #[trigger] S3@[16 * r + c2] by {
        assert(inverse[16 * ((16 * r + c1) / 16) + S3@[16 * r + c1]] == (16 * r + c1) % 16);
        assert(inverse[16 * ((16 * r + c2) / 16) + S3@[16 * r + c2]] == (16 * r + c2) % 16);
        assert((16 * r + c1) / 16 == r && (16 * r + c1) % 16 == c1);
        assert((16 * r + c2) / 16 == r && (16 * r + c2) % 16 == c2);
    }
}

/// Each row of S4 holds no value twice.
proof fn lemma_rows_distinct_s4()
    ensures
        forall|r: int, c1: int, c2: int|
            0 <= r < 4 && 0 <= c1 < 16 && 0 <= c2 < 16 && c1 != c2 ==> #[trigger] S4@[16 * r + c1]
                != #[trigger] S4@[16 * r + c2],
{
    let inverse = seq![
        4int, 8int, 9int, 3int, 14int, 11int, 5int, 0int, 10int, 6int, 7int, 12int,
        13int, 1int, 2int, 15int, 6int, 12int, 10int, 7int, 8int, 3int, 4int, 9int, 1int,
        15int, 13int, 2int, 11int, 0int, 14int, 5int, 3int, 9int, 13int, 10int, 15int,
        12int, 1int, 6int, 14int, 2int, 0int, 5int, 4int, 7int, 11int, 8int, 2int, 5int,
        14int, 0int, 9int, 10int, 3int, 13int, 7int, 8int, 4int, 11int, 12int, 6int,
        15int, 1int,
    ];
    assert forall|i: int| 0 <= i < 64 implies #[trigger] inverse[16 * (i / 16) + S4@[i]]
        == i % 16 by {
        assert(
            i == 0 || i == 1 || i == 2 || i == 3 || i == 4 || i == 5 || i == 6 || i == 7
            || i == 8 || i == 9 || i == 10 || i == 11 || i == 12 || i == 13 || i == 14
            || i == 15 || i == 16 || i == 17 || i == 18 || i == 19 || i == 20 || i == 21
            || i == 22 || i == 23 || i == 24 || i == 25 || i == 26 || i == 27 || i == 28
            || i == 29 || i == 30 || i == 31 || i == 32 || i == 33 || i == 34 || i == 35
            || i == 36 || i == 37 || i == 38 || i == 39 || i == 40 || i == 41 || i == 42
            || i == 43 || i == 44 || i == 45 || i == 46 || i == 47 || i == 48 || i == 49
            || i == 50 || i == 51 || i == 52 || i == 53 || i == 54 || i == 55 || i == 56
            || i == 57 || i == 58 || i == 59 || i == 60 || i == 61 || i == 62 || i == 63
        );
    }
    assert forall|r: int, c1: int, c2: int|
        0 <= r < 4 && 0 <= c1 < 16 && 0 <= c2 < 16 && c1 != c2 implies #[trigger] S4@[16 * r + c1]
        != #[trigger] S4@[16 * r + c2] by {
        assert(inverse[16 * ((16 * r + c1) / 16) + S4@[16 * r + c1]] == (16 * r + c1) % 16);
        assert(inverse[16 * ((16 * r + c2) / 16) + S4@[16 * r + c2]] == (16 * r + c2) % 16);
        assert((16 * r + c1) / 16 == r && (16 * r + c1) % 16 == c1);
        assert((16 * r + c2) / 16 == r && (16 * r + c2) % 16 == c2);
    }
}

/// Each row of S5 holds no value twice.
proof fn lemma_rows_distinct_s5()
    ensures
        forall|r: int, c1: int, c2: int|
            0 <= r < 4 && 0 <= c1 < 16 && 0 <= c2 < 16 && c1 != c2 ==> #[trigger] S5@[16 * r + c1]
                != #[trigger] S5@[16 * r + c2],
{
    let inverse = seq![
        13int, 3int, 0int, 10int, 2int, 9int, 7int, 4int, 8int, 15int, 5int, 6int, 1int,
        12int, 14int, 11int, 9int, 7int, 2int, 12int, 4int, 8int, 15int, 5int, 14int,
        13int, 11int, 1int, 3int, 6int, 0int, 10int, 14int, 2int, 1int, 13int, 0int,
        11int, 12int, 6int, 7int, 9int, 4int, 3int, 10int, 5int, 15int, 8int, 10int,
        4int, 6int, 15int, 13int, 14int, 8int, 3int, 1int, 11int, 12int, 0int, 2int,
        7int, 5int, 9int,
    ];
    assert forall|i: int| 0 <= i < 64 implies #[trigger] inverse[16 * (i / 16) + S5@[i]]
        == i % 16 by {
        assert(
            i == 0 || i == 1 || i == 2 || i == 3 || i == 4 || i == 5 || i == 6 || i == 7
            || i == 8 || i == 9 || i == 10 || i == 11 || i == 12 || i == 13 || i == 14
            || i == 15 || i == 16 || i == 17 || i == 18 || i == 19 || i == 20 || i == 21
            || i == 22 || i == 23 || i == 24 || i == 25 || i == 26 || i == 27 || i == 28
            || i == 29 || i == 30 || i == 31 || i == 32 || i == 33 || i == 34 || i == 35
            || i == 36 || i == 37 || i == 38 || i == 39 || i == 40 || i == 41 || i == 42
            || i == 43 || i == 44 || i == 45 || i == 46 || i == 47 || i == 48 || i == 49
            || i == 50 || i == 51 || i == 52 || i == 53 || i == 54 || i == 55 || i == 56
            || i == 57 || i == 58 || i == 59 || i == 60 || i == 61 || i == 62 || i == 63
        );
    }
    assert forall|r: int, c1: int, c2: int|
        0 <= r < 4 && 0 <= c1 < 16 && 0 <= c2 < 16 && c1 != c2 implies #[trigger] S5@[16 * r + c1]
        != #[trigger] S5@[16 * r + c2] by {
        assert(inverse[16 * ((16 * r + c1) / 16) + S5@[16 * r + c1]] == (16 * r + c1) % 16);
        assert(inverse[16 * ((16 * r + c2) / 16) + S5@[16 * r + c2]] == (16 * r + c2) % 16);
        assert((16 * r + c1) / 16 == r && (16 * r + c1) % 16 == c1);
        assert((16 * r + c2) / 16 == r && (16 * r + c2) % 16 == c2);
    }
}

/// Each row of S6 holds no value twice.
proof fn lemma_rows_distinct_s6()
    ensures
        forall|r: int, c1: int, c2: int|
            0 <= r < 4 && 0 <= c1 < 16 && 0 <= c2 < 16 && c1 != c2 ==> #[trigger] S6@[16 * r + c1]
                != #[trigger] S6@[16 * r + c2],
{
    let inverse = seq![
        8int, 1int, 5int, 10int, 11int, 14int, 6int, 13int, 7int, 4int, 2int, 15int,
        0int, 9int, 12int, 3int, 12int, 9int, 3int, 14int, 2int, 7int, 8int, 4int, 15int,
        6int, 0int, 13int, 5int, 10int, 11int, 1int, 9int, 12int, 4int, 7int, 10int,
        3int, 15int, 8int, 5int, 0int, 11int, 14int, 6int, 13int, 1int, 2int, 13int,
        10int, 2int, 1int, 0int, 5int, 12int, 11int, 14int, 4int, 7int, 8int, 3int,
        15int, 9int, 6int,
    ];
    assert forall|i: int| 0 <= i < 64 implies #[trigger] inverse[16 * (i / 16) + S6@[i]]
        == i % 16 by {
        assert(
            i == 0 || i == 1 || i == 2 || i == 3 || i == 4 || i == 5 || i == 6 || i == 7
            || i == 8 || i == 9 || i == 10 || i == 11 || i == 12 || i == 13 || i == 14
            || i == 15 || i == 16 || i == 17 || i == 18 || i == 19 || i == 20 || i == 21
            || i == 22 || i == 23 || i == 24 || i == 25 || i == 26 || i == 27 || i == 28
            || i == 29 || i == 30 || i == 31 || i == 32 || i == 33 || i == 34 || i == 35
            || i == 36 || i == 37 || i == 38 || i == 39 || i == 40 || i == 41 || i == 42
            || i == 43 || i == 44 || i == 45 || i == 46 || i == 47 || i == 48 || i == 49
            || i == 50 || i == 51 || i == 52 || i == 53 || i == 54 || i == 55 || i == 56
            || i == 57 || i == 58 || i == 59 || i == 60 || i == 61 || i == 62 || i == 63
        );
    }
    assert forall|r: int, c1: int, c2: int|
        0 <= r < 4 && 0 <= c1 < 16 && 0 <= c2 < 16 && c1 != c2 implies #[trigger] S6@[16 * r + c1]
        != #[trigger] S6@[16 * r + c2] by {
        assert(inverse[16 * ((16 * r + c1) / 16) + S6@[16 * r + c1]] == (16 * r + c1) % 16);
        assert(inverse[16 * ((16 * r + c2) / 16) + S6@[16 * r + c2]] == (16 * r + c2) % 16);
        assert((16 * r + c1) / 16 == r && (16 * r + c1) % 16 == c1);
        assert((16 * r + c2) / 16 == r && (16 * r + c2) % 16 == c2);
    }
}

/// Each row of S7 holds no value twice.
proof fn lemma_rows_distinct_s7()
    ensures
        forall|r: int, c1: int, c2: int|
            0 <= r < 4 && 0 <= c1 < 16 && 0 <= c2 < 16 && c1 != c2 ==> #[trigger] S7@[16 * r + c1]
                != #[trigger] S7@[16 * r + c2],
{
    let inverse = seq![
        5int, 15int, 2int, 8int, 0int, 12int, 14int, 11int, 6int, 10int, 13int, 1int,
        9int, 7int, 3int, 4int, 1int, 6int, 12int, 9int, 4int, 10int, 15int, 3int, 14int,
        5int, 7int, 2int, 11int, 0int, 8int, 13int, 12int, 0int, 15int, 5int, 1int,
        13int, 10int, 6int, 11int, 14int, 8int, 2int, 4int, 3int, 7int, 9int, 10int,
        4int, 13int, 14int, 5int, 9int, 0int, 7int, 3int, 8int, 6int, 1int, 15int, 2int,
        12int, 11int,
    ];
    assert forall|i: int| 0 <= i < 64 implies #[trigger] inverse[16 * (i / 16) + S7@[i]]
        == i % 16 by {
        assert(
            i == 0 || i == 1 || i == 2 || i == 3 || i == 4 || i == 5 || i == 6 || i == 7
            || i == 8 || i == 9 || i == 10 || i == 11 || i == 12 || i == 13 || i == 14
            || i == 15 || i == 16 || i == 17 || i == 18 || i == 19 || i == 20 || i == 21
            || i == 22 || i == 23 || i == 24 || i == 25 || i == 26 || i == 27 || i == 28
            || i == 29 || i == 30 || i == 31 || i == 32 || i == 33 || i == 34 || i == 35
            || i == 36 || i == 37 || i == 38 || i == 39 || i == 40 || i == 41 || i == 42
            || i == 43 || i == 44 || i == 45 || i == 46 || i == 47 || i == 48 || i == 49
            || i == 50 || i == 51 || i == 52 || i == 53 || i == 54 || i == 55 || i == 56
            || i == 57 || i == 58 || i == 59 || i == 60 || i == 61 || i == 62 || i == 63
        );
    }
    assert forall|r: int, c1: int, c2: int|
        0 <= r < 4 && 0 <= c1 < 16 && 0 <= c2 < 16 && c1 != c2 implies #[trigger] S7@[16 * r + c1]
        != #[trigger] S7@[16 * r + c2] by {
        assert(inverse[16 * ((16 * r + c1) / 16) + S7@[16 * r + c1]] == (16 * r + c1) % 16);
        assert(inverse[16 * ((16 * r + c2) / 16) + S7@[16 * r + c2]] == (16 * r + c2) % 16);
        assert((16 * r + c1) / 16 == r && (16 * r + c1) % 16 == c1);
        assert((16 * r + c2) / 16 == r && (16 * r + c2) % 16 == c2);
    }
}

/// Each row of S8 holds no value twice.
proof fn lemma_rows_distinct_s8()
    ensures
        forall|r: int, c1: int, c2: int|
            0 <= r < 4 && 0 <= c1 < 16 && 0 <= c2 < 16 && c1 != c2 ==> #[trigger] S8@[16 * r + c1]
                != #[trigger] S8@[16 * r + c2],
{
    let inverse = seq![
        13int, 7int, 1int, 10int, 3int, 12int, 4int, 15int, 2int, 9int, 8int, 6int,
        14int, 0int, 11int, 5int, 12int, 0int, 15int, 5int, 7int, 9int, 10int, 6int,
        3int, 14int, 4int, 11int, 8int, 2int, 13int, 1int, 8int, 3int, 7int, 13int, 2int,
        14int, 9int, 0int, 15int, 4int, 10int, 1int, 5int, 11int, 6int, 12int, 11int,
        1int, 0int, 12int, 4int, 13int, 14int, 3int, 6int, 10int, 5int, 15int, 9int,
        7int, 2int, 8int,
    ];
    assert forall|i: int| 0 <= i < 64 implies #[trigger] inverse[16 * (i / 16) + S8@[i]]
        == i % 16 by {
        assert(
            i == 0 || i == 1 || i == 2 || i == 3 || i == 4 || i == 5 || i == 6 || i == 7
            || i == 8 || i == 9 || i == 10 || i == 11 || i == 12 || i == 13 || i == 14
            || i == 15 || i == 16 || i == 17 || i == 18 || i == 19 || i == 20 || i == 21
            || i == 22 || i == 23 || i == 24 || i == 25 || i == 26 || i == 27 || i == 28
            || i == 29 || i == 30 || i == 31 || i == 32 || i == 33 || i == 34 || i == 35
            || i == 36 || i == 37 || i == 38 || i == 39 || i == 40 || i == 41 || i == 42
            || i == 43 || i == 44 || i == 45 || i == 46 || i == 47 || i == 48 || i == 49
            || i == 50 || i == 51 || i == 52 || i == 53 || i == 54 || i == 55 || i == 56
            || i == 57 || i == 58 || i == 59 || i == 60 || i == 61 || i == 62 || i == 63
        );
    }
    assert forall|r: int, c1: int, c2: int|
        0 <= r < 4 && 0 <= c1 < 16 && 0 <= c2 < 16 && c1 != c2 implies #[trigger] S8@[16 * r + c1]
        != #[trigger] S8@[16 * r + c2] by {
        assert(inverse[16 * ((16 * r + c1) / 16) + S8@[16 * r + c1]] == (16 * r + c1) % 16);
        assert(inverse[16 * ((16 * r + c2) / 16) + S8@[16 * r + c2]] == (16 * r + c2) % 16);
        assert((16 * r + c1) / 16 == r && (16 * r + c1) % 16 == c1);
        assert((16 * r + c2) / 16 == r && (16 * r + c2) % 16 == c2);
    }
}

/// P is a permutation: no two of its entries name the same bit.
pub proof fn lemma_cipher_permutation_is_permutation()
    ensures
        forall|i: int, j: int|
            0 <= i < 32 && 0 <= j < 32 && i != j ==> #[trigger] CIPHER_PERMUTATION@[i]
                != #[trigger] CIPHER_PERMUTATION@[j],
{
    let inverse = seq![
        8int, 16int, 22int, 30int, 12int, 27int, 1int, 17int, 23int, 15int, 29int, 5int,
        25int, 19int, 9int, 0int, 7int, 13int, 24int, 2int, 3int, 28int, 10int, 18int,
        31int, 11int, 21int, 6int, 4int, 26int, 14int, 20int,
    ];
    assert forall|i: int| 0 <= i < 32 implies #[trigger] inverse[CIPHER_PERMUTATION@[i] - 1] == i by {
        assert(
            i == 0 || i == 1 || i == 2 || i == 3 || i == 4 || i == 5 || i == 6 || i == 7
            || i == 8 || i == 9 || i == 10 || i == 11 || i == 12 || i == 13 || i == 14
            || i == 15 || i == 16 || i == 17 || i == 18 || i == 19 || i == 20 || i == 21
            || i == 22 || i == 23 || i == 24 || i == 25 || i == 26 || i == 27 || i == 28
            || i == 29 || i == 30 || i == 31
        );
    }
    assert forall|i: int, j: int|
        0 <= i < 32 && 0 <= j < 32 && i != j implies #[trigger] CIPHER_PERMUTATION@[i]
        != #[trigger] CIPHER_PERMUTATION@[j] by {
        assert(inverse[CIPHER_PERMUTATION@[i] - 1] == i);
        assert(inverse[CIPHER_PERMUTATION@[j] - 1] == j);
    }
}

/// No two entries of permuted choice 2 name the same bit.
pub proof fn lemma_pc2_distinct()
    ensures
        forall|i: int, j: int|
            0 <= i < 48 && 0 <= j < 48 && i != j ==> #[trigger] PC2@[i] != #[trigger] PC2@[j],
{
    lemma_pc2_table();
    let inverse = seq![
        4int, 23int, 6int, 15int, 5int, 9int, 19int, 17int, 0int, 11int, 2int, 14int,
        22int, 0int, 8int, 18int, 1int, 0int, 13int, 21int, 10int, 0int, 12int, 3int,
        0int, 16int, 20int, 7int, 46int, 30int, 26int, 47int, 34int, 40int, 0int, 45int,
        27int, 0int, 38int, 31int, 24int, 43int, 0int, 36int, 33int, 42int, 28int, 35int,
        37int, 44int, 32int, 25int, 41int, 0int, 29int, 39int,
    ];
    assert forall|i: int| 0 <= i < 48 implies #[trigger] inverse[PC2@[i] - 1] == i by {
        assert(
            i == 0 || i == 1 || i == 2 || i == 3 || i == 4 || i == 5 || i == 6 || i == 7
            || i == 8 || i == 9 || i == 10 || i == 11 || i == 12 || i == 13 || i == 14
            || i == 15 || i == 16 || i == 17 || i == 18 || i == 19 || i == 20 || i == 21
            || i == 22 || i == 23 || i == 24 || i == 25 || i == 26 || i == 27 || i == 28
            || i == 29 || i == 30 || i == 31 || i == 32 || i == 33 || i == 34 || i == 35
            || i == 36 || i == 37 || i == 38 || i == 39 || i == 40 || i == 41 || i == 42
            || i == 43 || i == 44 || i == 45 || i == 46 || i == 47
        );
    }
    assert forall|i: int, j: int|
        0 <= i < 48 && 0 <= j < 48 && i != j implies #[trigger] PC2@[i] != #[trigger] PC2@[j] by {
        assert(inverse[PC2@[i] - 1] == i);
        assert(inverse[PC2@[j] - 1] == j);
    }
}

/// Permuted choice 1 names 56 different bits: no bit goes to both registers, and none
/// twice to one.
pub proof fn lemma_pc1_distinct()
    ensures
        forall|i: int, j: int|
            0 <= i < 28 && 0 <= j < 28 ==> #[trigger] PC1C@[i] != #[trigger] PC1D@[j],
        forall|i: int, j: int|
            0 <= i < 28 && 0 <= j < 28 && i != j ==> #[trigger] PC1C@[i] != #[trigger] PC1C@[j],
        forall|i: int, j: int|
            0 <= i < 28 && 0 <= j < 28 && i != j ==> #[trigger] PC1D@[i] != #[trigger] PC1D@[j],
{
    lemma_pc1_tables();
    let inverse = seq![
        7int, 15int, 23int, 55int, 51int, 43int, 35int, 0int, 6int, 14int, 22int, 54int,
        50int, 42int, 34int, 0int, 5int, 13int, 21int, 53int, 49int, 41int, 33int, 0int,
        4int, 12int, 20int, 52int, 48int, 40int, 32int, 0int, 3int, 11int, 19int, 27int,
        47int, 39int, 31int, 0int, 2int, 10int, 18int, 26int, 46int, 38int, 30int, 0int,
        1int, 9int, 17int, 25int, 45int, 37int, 29int, 0int, 0int, 8int, 16int, 24int,
        44int, 36int, 28int, 0int,
    ];
    assert forall|i: int| 0 <= i < 28 implies #[trigger] inverse[PC1C@[i] - 1] == i
        && inverse[PC1D@[i] - 1] == i + 28 by {
        assert(
            i == 0 || i == 1 || i == 2 || i == 3 || i == 4 || i == 5 || i == 6 || i == 7
            || i == 8 || i == 9 || i == 10 || i == 11 || i == 12 || i == 13 || i == 14
            || i == 15 || i == 16 || i == 17 || i == 18 || i == 19 || i == 20 || i == 21
            || i == 22 || i == 23 || i == 24 || i == 25 || i == 26 || i == 27
        );
    }
    assert forall|i: int, j: int| 0 <= i < 28 && 0 <= j < 28 implies #[trigger] PC1C@[i]
        != #[trigger] PC1D@[j] by {
        assert(inverse[PC1C@[i] - 1] == i);
        assert(inverse[PC1D@[j] - 1] == j + 28);
    }
    assert forall|i: int, j: int| 0 <= i < 28 && 0 <= j < 28 && i != j implies #[trigger] PC1C@[i]
        != #[trigger] PC1C@[j] by {
        assert(inverse[PC1C@[i] - 1] == i);
        assert(inverse[PC1C@[j] - 1] == j);
    }
    assert forall|i: int, j: int| 0 <= i < 28 && 0 <= j < 28 && i != j implies #[trigger] PC1D@[i]
        != #[trigger] PC1D@[j] by {
        assert(inverse[PC1D@[i] - 1] == i + 28);
        assert(inverse[PC1D@[j] - 1] == j + 28);
    }
}

/// The expansion E: group `j` of its 6-bit groups is bits `4j - 1` to `4j + 4` of the half
/// block (numbered from 1, round the end), so that each group repeats the last bit of the
/// group before and the first bit of the group after.
pub proof fn lemma_expansion_pattern()
    ensures
        forall|j: int, k: int|
            0 <= j < 8 && 0 <= k < 6 ==> #[trigger] E_BIT_SELECTION_TABLE@[6 * j + k] == (4 * j + k
                + 31) % 32 + 1,
{
    assert forall|i: int| 0 <= i < 48 implies #[trigger] E_BIT_SELECTION_TABLE@[i] == (4 * (i / 6)
        + i % 6 + 31) % 32 + 1 by {
        assert(
            i == 0 || i == 1 || i == 2 || i == 3 || i == 4 || i == 5 || i == 6 || i == 7
            || i == 8 || i == 9 || i == 10 || i == 11 || i == 12 || i == 13 || i == 14
            || i == 15 || i == 16 || i == 17 || i == 18 || i == 19 || i == 20 || i == 21
            || i == 22 || i == 23 || i == 24 || i == 25 || i == 26 || i == 27 || i == 28
            || i == 29 || i == 30 || i == 31 || i == 32 || i == 33 || i == 34 || i == 35
            || i == 36 || i == 37 || i == 38 || i == 39 || i == 40 || i == 41 || i == 42
            || i == 43 || i == 44 || i == 45 || i == 46 || i == 47
        );
    }
    assert forall|j: int, k: int| 0 <= j < 8 && 0 <= k < 6 implies #[trigger] E_BIT_SELECTION_TABLE@[6
        * j + k] == (4 * j + k + 31) % 32 + 1 by {
        assert(E_BIT_SELECTION_TABLE@[6 * j + k] == (4 * ((6 * j + k) / 6) + (6 * j + k) % 6 + 31)
            % 32 + 1);
        assert((6 * j + k) / 6 == j && (6 * j + k) % 6 == k);
    }
}

} // verus!
