use vstd::arithmetic::power2::*;
use vstd::prelude::*;

verus! {

/// Bit `i` of a `width`-bit value held in the low bits of `x`, with bits numbered
/// as DES numbers them: from the most significant one, starting at 0.
pub open spec fn des_bit(x: u64, width: int, i: int) -> bool {
    (x >> ((width - 1 - i) as u64)) & 1u64 == 1u64
}

/// The value whose binary digits, read from the most significant one, are the bits
/// of the `in_width`-bit value `x` that `table` selects (entries numbered from 1).
/// This is what a DES permutation, expansion or selection table makes of `x`.
pub open spec fn permuted(x: u64, in_width: int, table: Seq<u8>) -> nat
    decreases table.len(),
{
    if table.len() == 0 {
        0
    } else {
        2 * permuted(x, in_width, table.drop_last()) + if des_bit(x, in_width, table.last() - 1) {
            1nat
        } else {
            0nat
        }
    }
}

/// Or-ing a single bit `b` in at position `k` changes bit `k` and no other.
pub proof fn lemma_or_bit(p: u64, b: u64, k: u64, m: u64)
    by (bit_vector)
    requires
        b <= 1,
        k < 64,
        m < 64,
    ensures
        (((p | (b << k)) >> m) & 1 == 1) == (if m == k {
            (p >> m) & 1 == 1 || b == 1
        } else {
            (p >> m) & 1 == 1
        }),
{
}

/// Or-ing a single bit in below position `w` keeps a value below `2^w`.
pub proof fn lemma_or_bit_bound(p: u64, b: u64, k: u64, w: u64)
    by (bit_vector)
    requires
        b <= 1,
        k < w,
        w < 64,
        p < (1u64 << w),
    ensures
        (p | (b << k)) < (1u64 << w),
{
}

/// Setting DES bit `i` of a `width`-bit value to `b` (from 0) leaves the other bits alone.
pub proof fn lemma_set_des_bit(p: u64, b: u64, width: int, i: int)
    requires
        b <= 1,
        0 <= i < width <= 64,
    ensures
        forall|j: int|
            0 <= j < width && j != i ==> #[trigger] des_bit(
                p | (b << ((width - 1 - i) as u64)),
                width,
                j,
            ) == des_bit(p, width, j),
        des_bit(p | (b << ((width - 1 - i) as u64)), width, i) == (des_bit(p, width, i) || b
            == 1),
{
    let k = (width - 1 - i) as u64;
    assert forall|j: int| 0 <= j < width && j != i implies #[trigger] des_bit(
        p | (b << k),
        width,
        j,
    ) == des_bit(p, width, j) by {
        lemma_or_bit(p, b, k, (width - 1 - j) as u64);
    }
    lemma_or_bit(p, b, k, k);
}

/// Zero has no bit set.
pub proof fn lemma_zero_bits(width: int)
    ensures
        forall|j: int| !#[trigger] des_bit(0u64, width, j),
{
    assert forall|j: int| !#[trigger] des_bit(0u64, width, j) by {
        let k = (width - 1 - j) as u64;
        assert((0u64 >> k) & 1u64 == 0u64) by (bit_vector);
    }
}

/// Bit `m` of a `u32` widened to `u64` after or-ing a single bit `b` in at position `k`.
pub proof fn lemma_or_bit_u32(p: u32, b: u32, k: u32, m: u64)
    by (bit_vector)
    requires
        b <= 1,
        k < 32,
        m < 64,
    ensures
        ((((p | (b << k)) as u64) >> m) & 1 == 1) == (if m == k as u64 {
            ((p as u64) >> m) & 1 == 1 || b == 1
        } else {
            ((p as u64) >> m) & 1 == 1
        }),
{
}

/// Or-ing a single bit in below position `w` keeps a `u32` below `2^w`.
pub proof fn lemma_or_bit_bound_u32(p: u32, b: u32, k: u32, w: u32)
    by (bit_vector)
    requires
        b <= 1,
        k < w,
        w < 32,
        p < (1u32 << w),
    ensures
        (p | (b << k)) < (1u32 << w),
{
}

/// Setting DES bit `i` of a `width`-bit value held in a `u32` leaves the other bits alone.
pub proof fn lemma_set_des_bit_u32(p: u32, b: u32, width: int, i: int)
    requires
        b <= 1,
        0 <= i < width <= 32,
    ensures
        forall|j: int|
            0 <= j < width && j != i ==> #[trigger] des_bit(
                (p | (b << ((width - 1 - i) as u32))) as u64,
                width,
                j,
            ) == des_bit(p as u64, width, j),
        des_bit((p | (b << ((width - 1 - i) as u32))) as u64, width, i) == (des_bit(
            p as u64,
            width,
            i,
        ) || b == 1),
{
    let k = (width - 1 - i) as u32;
    assert forall|j: int| 0 <= j < width && j != i implies #[trigger] des_bit(
        (p | (b << k)) as u64,
        width,
        j,
    ) == des_bit(p as u64, width, j) by {
        lemma_or_bit_u32(p, b, k, (width - 1 - j) as u64);
    }
    lemma_or_bit_u32(p, b, k, k as u64);
}

/// `1 << w` is `2^w`.
pub proof fn lemma_shl_one(w: u64)
    requires
        w < 64,
    ensures
        (1u64 << w) == pow2(w as nat),
{
    lemma_pow2_strictly_increases(w as nat, 64);
    lemma2_to64_rest();
    vstd::bits::lemma_u64_shl_is_mul(1u64, w);
}

/// A value below `2^width` is fixed by its `width` DES bits.
pub proof fn lemma_bits_determine(a: u64, b: u64, width: int)
    requires
        0 <= width <= 64,
        a < pow2(width as nat),
        b < pow2(width as nat),
        forall|i: int| 0 <= i < width ==> #[trigger] des_bit(a, width, i) == des_bit(b, width, i),
    ensures
        a == b,
    decreases width,
{
    if width == 0 {
        lemma2_to64();
    } else {
        let a1 = a >> 1u64;
        let b1 = b >> 1u64;
        assert(a >> 1u64 == a / 2 && b >> 1u64 == b / 2) by (bit_vector);
        lemma_pow2_unfold(width as nat);
        assert forall|i: int| 0 <= i < width - 1 implies #[trigger] des_bit(a1, width - 1, i)
            == des_bit(b1, width - 1, i) by {
            let s = (width - 2 - i) as u64;
            assert(des_bit(a, width, i) == des_bit(b, width, i));
            assert((a >> 1u64) >> s == a >> ((s + 1) as u64)) by (bit_vector)
                requires
                    s < 63,
            ;
            assert((b >> 1u64) >> s == b >> ((s + 1) as u64)) by (bit_vector)
                requires
                    s < 63,
            ;
        }
        lemma_bits_determine(a1, b1, width - 1);
        assert(des_bit(a, width, width - 1) == des_bit(b, width, width - 1));
        assert(a >> 0u64 == a && b >> 0u64 == b) by (bit_vector);
        assert(((a >> 1u64) == (b >> 1u64) && (a & 1u64 == 1u64) == (b & 1u64 == 1u64)) ==> a == b)
            by (bit_vector);
    }
}

/// The value that `permuted` gives is below `2^n` for a table of `n` entries, and its
/// DES bit `i` is the input bit that entry `i` of the table names.
pub proof fn lemma_permuted_bits(x: u64, in_width: int, table: Seq<u8>)
    requires
        table.len() <= 64,
    ensures
        permuted(x, in_width, table) < pow2(table.len()),
        forall|i: int|
            0 <= i < table.len() ==> #[trigger] des_bit(
                permuted(x, in_width, table) as u64,
                table.len() as int,
                i,
            ) == des_bit(x, in_width, table[i] - 1),
    decreases table.len(),
{
    let n = table.len() as int;
    if n == 0 {
        lemma2_to64();
    } else {
        let front = table.drop_last();
        lemma_permuted_bits(x, in_width, front);
        let v1 = permuted(x, in_width, front);
        let bit: nat = if des_bit(x, in_width, table.last() - 1) {
            1
        } else {
            0
        };
        lemma_pow2_unfold(n as nat);
        if n - 1 < 63 {
            lemma_pow2_strictly_increases((n - 1) as nat, 63);
        }
        lemma2_to64_rest();
        let v1u = v1 as u64;
        let bu = bit as u64;
        let vu = (2 * v1 + bit) as u64;
        assert(vu == 2 * v1u + bu);
        assert forall|i: int| 0 <= i < n implies #[trigger] des_bit(vu, n, i) == des_bit(
            x,
            in_width,
            table[i] - 1,
        ) by {
            if i < n - 1 {
                assert(front[i] == table[i]);
                assert(des_bit(v1u, n - 1, i) == des_bit(x, in_width, front[i] - 1));
                let s = (n - 2 - i) as u64;
                assert(((2 * v1u + bu) as u64 >> ((s + 1) as u64)) & 1 == (v1u >> s) & 1)
                    by (bit_vector)
                    requires
                        s < 63,
                        v1u < 0x8000_0000_0000_0000u64,
                        bu <= 1,
                ;
            } else {
                assert((((2 * v1u + bu) as u64 >> 0u64) & 1 == 1) == (bu == 1)) by (bit_vector)
                    requires
                        v1u < 0x8000_0000_0000_0000u64,
                        bu <= 1,
                ;
            }
        }
    }
}

/// A value below `2^n` whose DES bits are those a table of `n` entries selects from `x`
/// is the value that `permuted` gives.
pub proof fn lemma_permuted_unique(r: u64, x: u64, in_width: int, table: Seq<u8>)
    requires
        table.len() <= 64,
        r < pow2(table.len()),
        forall|i: int|
            0 <= i < table.len() ==> #[trigger] des_bit(r, table.len() as int, i) == des_bit(
                x,
                in_width,
                table[i] - 1,
            ),
    ensures
        r == permuted(x, in_width, table),
{
    lemma_permuted_bits(x, in_width, table);
    if table.len() < 64 {
        lemma_pow2_strictly_increases(table.len(), 64);
    }
    lemma2_to64_rest();
    let v = permuted(x, in_width, table) as u64;
    assert forall|i: int| 0 <= i < table.len() implies #[trigger] des_bit(
        r,
        table.len() as int,
        i,
    ) == des_bit(v, table.len() as int, i) by {}
    lemma_bits_determine(r, v, table.len() as int);
}

/// Bit `k` of an exclusive or is the exclusive or of the bits, and an exclusive or of two
/// values below `2^w` stays below `2^w`.
pub proof fn lemma_xor_bit(a: u64, b: u64, k: u64, w: u64)
    by (bit_vector)
    requires
        k < 64,
    ensures
        (((a ^ b) >> k) & 1 == 1) == (((a >> k) & 1 == 1) != ((b >> k) & 1 == 1)),
        w < 64 && a < (1u64 << w) && b < (1u64 << w) ==> (a ^ b) < (1u64 << w),
{
}

/// Every bit below position `w` of the value made of `w` one bits is set.
pub proof fn lemma_ones_bit(k: u64, w: u64)
    by (bit_vector)
    requires
        k < w <= 64,
    ensures
        ((if w == 64 {
            0xffff_ffff_ffff_ffffu64
        } else {
            ((1u64 << w) - 1) as u64
        }) >> k) & 1 == 1,
{
}

/// Complement is exclusive or with all ones, and it commutes with exclusive or.
pub proof fn lemma_complement_u64(a: u64, b: u64, c: u64)
    by (bit_vector)
    ensures
        !a == a ^ 0xffff_ffff_ffff_ffffu64,
        (a ^ c) ^ (b ^ c) == a ^ b,
        !a ^ b == !(a ^ b),
{
}

/// Complement of a `u32` is exclusive or with all ones, widened or not, and it commutes
/// with exclusive or.
pub proof fn lemma_complement_u32(a: u32, b: u32)
    by (bit_vector)
    ensures
        (!a) as u64 == (a as u64) ^ 0xffff_ffffu64,
        !a ^ b == !(a ^ b),
{
}

/// Bit `i` of an exclusive or is the exclusive or of the bits.
pub proof fn lemma_des_bit_xor(a: u64, b: u64, width: int, i: int)
    requires
        0 <= width - 1 - i < 64,
    ensures
        des_bit(a ^ b, width, i) == (des_bit(a, width, i) != des_bit(b, width, i)),
{
    lemma_xor_bit(a, b, (width - 1 - i) as u64, 0);
}

/// A selection depends only on the bits the table selects.
pub proof fn lemma_permuted_agree(x: u64, y: u64, in_width: int, table: Seq<u8>)
    requires
        forall|i: int|
            0 <= i < table.len() ==> #[trigger] des_bit(x, in_width, table[i] - 1) == des_bit(
                y,
                in_width,
                table[i] - 1,
            ),
    ensures
        permuted(x, in_width, table) == permuted(y, in_width, table),
    decreases table.len(),
{
    if table.len() > 0 {
        let front = table.drop_last();
        assert forall|i: int| 0 <= i < front.len() implies #[trigger] des_bit(
            x,
            in_width,
            front[i] - 1,
        ) == des_bit(y, in_width, front[i] - 1) by {
            assert(front[i] == table[i]);
        }
        lemma_permuted_agree(x, y, in_width, front);
        assert(des_bit(x, in_width, table[table.len() - 1] - 1) == des_bit(
            y,
            in_width,
            table[table.len() - 1] - 1,
        ));
    }
}

/// Where every selected bit is set, the selection is `n` one bits.
pub proof fn lemma_permuted_all_set(x: u64, in_width: int, table: Seq<u8>)
    requires
        forall|i: int| 0 <= i < table.len() ==> #[trigger] des_bit(x, in_width, table[i] - 1),
    ensures
        permuted(x, in_width, table) == pow2(table.len()) - 1,
    decreases table.len(),
{
    if table.len() == 0 {
        lemma2_to64();
    } else {
        let front = table.drop_last();
        assert forall|i: int| 0 <= i < front.len() implies #[trigger] des_bit(
            x,
            in_width,
            front[i] - 1,
        ) by {
            assert(front[i] == table[i]);
        }
        lemma_permuted_all_set(x, in_width, front);
        assert(des_bit(x, in_width, table[table.len() - 1] - 1));
        lemma_pow2_unfold(table.len());
    }
}

/// Zero selects to zero.
pub proof fn lemma_permuted_zero(in_width: int, table: Seq<u8>)
    ensures
        permuted(0u64, in_width, table) == 0,
    decreases table.len(),
{
    lemma_zero_bits(in_width);
    if table.len() > 0 {
        lemma_permuted_zero(in_width, table.drop_last());
    }
}

/// A selection commutes with exclusive or.
pub proof fn lemma_permuted_xor(a: u64, b: u64, in_width: int, table: Seq<u8>)
    requires
        table.len() <= 64,
        in_width <= 64,
        forall|i: int| 0 <= i < table.len() ==> 1 <= #[trigger] table[i] <= in_width,
    ensures
        permuted(a ^ b, in_width, table) == (permuted(a, in_width, table) as u64 ^ permuted(
            b,
            in_width,
            table,
        ) as u64),
{
    let n = table.len() as int;
    lemma_permuted_bits(a, in_width, table);
    lemma_permuted_bits(b, in_width, table);
    lemma2_to64_rest();
    if n < 64 {
        lemma_pow2_strictly_increases(n as nat, 64);
    }
    let pa = permuted(a, in_width, table) as u64;
    let pb = permuted(b, in_width, table) as u64;
    let r = pa ^ pb;
    assert forall|i: int| 0 <= i < n implies #[trigger] des_bit(r, n, i) == des_bit(
        a ^ b,
        in_width,
        table[i] - 1,
    ) by {
        lemma_des_bit_xor(pa, pb, n, i);
        lemma_des_bit_xor(a, b, in_width, table[i] - 1);
    }
    if n < 64 {
        lemma_shl_one(n as u64);
        lemma_xor_bit(pa, pb, 0, n as u64);
    }
    lemma_permuted_unique(r, a ^ b, in_width, table);
}

/// Where `ones` has every selected bit set, exclusive or with it passes through a
/// selection as exclusive or with `n` one bits.
pub proof fn lemma_permuted_complement(x: u64, ones: u64, in_width: int, table: Seq<u8>)
    requires
        table.len() <= 64,
        in_width <= 64,
        forall|i: int| 0 <= i < table.len() ==> 1 <= #[trigger] table[i] <= in_width,
        forall|i: int| 0 <= i < table.len() ==> #[trigger] des_bit(ones, in_width, table[i] - 1),
    ensures
        permuted(x ^ ones, in_width, table) == (permuted(x, in_width, table) as u64 ^ (pow2(
            table.len(),
        ) - 1) as u64),
{
    lemma_permuted_xor(x, ones, in_width, table);
    lemma_permuted_all_set(ones, in_width, table);
}

/// Every DES bit of a `width`-bit value made of `width` one bits is set.
pub proof fn lemma_ones_des_bits(ones: u64, width: int)
    requires
        0 < width <= 64,
        ones == (if width == 64 {
            0xffff_ffff_ffff_ffffu64
        } else {
            ((1u64 << width as u64) - 1) as u64
        }),
    ensures
        forall|j: int| 0 <= j < width ==> #[trigger] des_bit(ones, width, j),
{
    assert forall|j: int| 0 <= j < width implies #[trigger] des_bit(ones, width, j) by {
        lemma_ones_bit((width - 1 - j) as u64, width as u64);
    }
}

} // verus!
