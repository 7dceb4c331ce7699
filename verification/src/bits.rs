//! Popcount and bit-selection helpers for 128-bit tile masks, together with
//! the bitwise facts that the engine's termination and consistency proofs
//! rest on. A mask `a` is a subset of `b` exactly when `a & b == a`.

use vstd::prelude::*;

verus! {

/// Number of set bits in `c`.
pub open spec fn spec_popcount(c: u128) -> nat
    decreases c,
{
    if c == 0 {
        0
    } else {
        spec_popcount(c / 2) + (if c % 2 == 1 {
            1nat
        } else {
            0nat
        })
    }
}

/// The mask shifted right by `k` bits, zero once the shift reaches the width.
pub open spec fn shr128(c: u128, k: int) -> u128 {
    if 0 <= k < 128 {
        c >> k
    } else if k >= 128 {
        0
    } else {
        c
    }
}

/// A mask below `pow2(n)` has at most `n` set bits.
proof fn lemma_popcount_bound(c: u128, n: nat)
    requires
        c < vstd::arithmetic::power2::pow2(n),
    ensures
        spec_popcount(c) <= n,
    decreases n,
{
    if c != 0 {
        if n == 0 {
            assert(vstd::arithmetic::power2::pow2(0) == 1) by {
                vstd::arithmetic::power2::lemma2_to64();
            }
        } else {
            vstd::arithmetic::power2::lemma_pow2_unfold(n);
            lemma_popcount_bound(c / 2, (n - 1) as nat);
        }
    }
}

/// Every mask has at most 128 set bits.
pub proof fn lemma_popcount_le_128(c: u128)
    ensures
        spec_popcount(c) <= 128,
{
    vstd::arithmetic::power2::lemma_pow2_adds(64, 64);
    assert(vstd::arithmetic::power2::pow2(64) == 0x1_0000_0000_0000_0000) by {
        vstd::arithmetic::power2::lemma2_to64_rest();
    }
    assert(c < vstd::arithmetic::power2::pow2(128));
    lemma_popcount_bound(c, 128);
}

/// A mask has no set bits exactly when it is zero.
pub proof fn lemma_popcount_zero(c: u128)
    ensures
        (spec_popcount(c) == 0) <==> (c == 0),
    decreases c,
{
    if c != 0 && c % 2 == 0 {
        lemma_popcount_zero(c / 2);
    }
}

/// Intersecting cannot raise the popcount, and strictly lowers it whenever it
/// changes the mask.
pub proof fn lemma_popcount_and(c: u128, m: u128)
    ensures
        spec_popcount(c & m) <= spec_popcount(c),
        c & m != c ==> spec_popcount(c & m) < spec_popcount(c),
    decreases c,
{
    if c == 0 {
        assert(c & m == 0) by (bit_vector)
            requires
                c == 0u128,
        ;
    } else {
        assert((c & m) / 2 == (c / 2) & (m / 2) && (c & m) % 2 <= c % 2) by (bit_vector);
        lemma_popcount_and(c / 2, m / 2);
        if c & m != c {
            if (c & m) % 2 == c % 2 {
                if (c / 2) & (m / 2) == c / 2 {
                    assert((c & m) == ((c & m) / 2) * 2 + ((c & m) % 2));
                    assert(c == (c / 2) * 2 + (c % 2));
                    assert(false);
                }
            }
        }
    }
}

/// A mask with a single set bit has popcount one.
pub proof fn lemma_popcount_single(i: u32)
    requires
        i < 128,
    ensures
        spec_popcount(1u128 << i) == 1,
    decreases i,
{
    if i == 0 {
        assert(1u128 << 0u32 == 1) by (bit_vector);
        assert(spec_popcount(0) == 0);
        assert(spec_popcount(1) == 1);
    } else {
        assert((1u128 << i) / 2 == 1u128 << ((i - 1) as u32) && (1u128 << i) % 2 == 0 && 1u128 << i
            != 0) by (bit_vector)
            requires
                0 < i < 128u32,
        ;
        lemma_popcount_single((i - 1) as u32);
        assert(spec_popcount((1u128 << i) / 2) == 1);
        assert(spec_popcount(1u128 << i) == spec_popcount((1u128 << i) / 2));
    }
}

/// A mask of popcount one that has bit `i` set is exactly that bit.
pub proof fn lemma_popcount_one(c: u128, i: u32)
    requires
        i < 128,
        c & (1u128 << i) != 0,
        spec_popcount(c) == 1,
    ensures
        c == 1u128 << i,
    decreases i,
{
    if i == 0 {
        assert(c % 2 == 1 && c != 0) by (bit_vector)
            requires
                c & (1u128 << 0u32) != 0,
        ;
        lemma_popcount_zero(c / 2);
        assert(1u128 << 0u32 == 1) by (bit_vector);
    } else {
        assert((c / 2) & (1u128 << ((i - 1) as u32)) != 0 && c != 0 && c / 2 != 0) by (bit_vector)
            requires
                c & (1u128 << i) != 0,
                0 < i < 128u32,
        ;
        if c % 2 == 1 {
            lemma_popcount_zero(c / 2);
            assert(false);
        }
        lemma_popcount_one(c / 2, (i - 1) as u32);
        assert((1u128 << ((i - 1) as u32)) * 2 == 1u128 << i) by (bit_vector)
            requires
                0 < i < 128u32,
        ;
    }
}

/// Stepping the shift down by one bit adds that bit to the popcount of the
/// high part.
proof fn lemma_shr128_step(c: u128, i: u32)
    requires
        i < 128,
    ensures
        spec_popcount(shr128(c, i as int)) == spec_popcount(shr128(c, i as int + 1)) + (if c & (
        1u128 << i) != 0 {
            1nat
        } else {
            0nat
        }),
{
    if i == 127 {
        assert((c >> 127u32) / 2 == 0 && ((c >> 127u32) % 2 == 1 <==> c & (1u128 << 127u32) != 0))
            by (bit_vector);
    } else {
        assert((c >> i) / 2 == c >> (i + 1) && ((c >> i) % 2 == 1 <==> c & (1u128 << i) != 0))
            by (bit_vector)
            requires
                i < 127u32,
        ;
    }
}

/// Count the set bits of a mask.
pub fn popcount(c: u128) -> (r: u32)
    ensures
        r == spec_popcount(c),
        r <= 128,
{
    proof {
        lemma_popcount_le_128(c);
    }
    let mut x = c;
    let mut n: u32 = 0;
    while x != 0
        invariant
            n + spec_popcount(x) == spec_popcount(c),
            spec_popcount(c) <= 128,
        decreases x,
    {
        if x % 2 == 1 {
            n = n + 1;
        }
        x = x / 2;
    }
    n
}

/// Find the `j`-th set bit of `c`, counting from the most-significant end:
/// the returned bit is set and exactly `j` set bits lie above it.
pub fn select_bit(c: u128, j: u32) -> (b: u32)
    requires
        j < spec_popcount(c),
    ensures
        b < 128,
        c & (1u128 << b) != 0,
        spec_popcount(shr128(c, b as int + 1)) == j,
{
    proof {
        lemma_popcount_le_128(c);
    }
    let mut i: u32 = 127;
    let mut seen: u32 = 0;
    loop
        invariant
            i <= 127,
            seen == spec_popcount(shr128(c, i as int + 1)),
            seen <= j,
            j < spec_popcount(c),
        decreases i,
    {
        proof {
            lemma_shr128_step(c, i);
        }
        if (c >> i) & 1 != 0 {
            proof {
                assert(c & (1u128 << i) != 0) by (bit_vector)
                    requires
                        (c >> i) & 1 != 0,
                        i < 128u32,
                ;
            }
            if seen == j {
                return i;
            }
            seen = seen + 1;
        } else {
            proof {
                assert(c & (1u128 << i) == 0) by (bit_vector)
                    requires
                        (c >> i) & 1 == 0,
                        i < 128u32,
                ;
            }
        }
        proof {
            if i == 0 {
                assert(c >> 0u32 == c) by (bit_vector);
                assert(shr128(c, 0) == c);
                assert(false);
            }
        }
        i = i - 1;
    }
}

/// A proper subset has strictly fewer set bits.
pub proof fn lemma_popcount_subset(a: u128, b: u128)
    requires
        a & b == a,
        a != b,
    ensures
        spec_popcount(a) < spec_popcount(b),
{
    assert(b & a == a) by (bit_vector)
        requires
            a & b == a,
    ;
    lemma_popcount_and(b, a);
}

/// Sum of the popcounts of a sequence of masks: the engine's termination
/// measure over a constraint map.
pub open spec fn sum_popcount(s: Seq<u128>) -> nat
    decreases s.len(),
{
    if s.len() == 0 {
        0
    } else {
        sum_popcount(s.drop_last()) + spec_popcount(s.last())
    }
}

/// Replacing one mask changes the sum by the difference of the popcounts.
pub proof fn lemma_sum_popcount_update(s: Seq<u128>, i: int, v: u128)
    requires
        0 <= i < s.len(),
    ensures
        sum_popcount(s.update(i, v)) + spec_popcount(s[i]) == sum_popcount(s) + spec_popcount(v),
    decreases s.len(),
{
    if i == s.len() - 1 {
        assert(s.update(i, v).drop_last() =~= s.drop_last());
        assert(s.update(i, v).last() == v);
    } else {
        assert(s.update(i, v).drop_last() =~= s.drop_last().update(i, v));
        assert(s.update(i, v).last() == s.last());
        lemma_sum_popcount_update(s.drop_last(), i, v);
    }
}

/// Bit `i` of a union is set exactly when it is set on either side.
pub proof fn lemma_bit_or(a: u128, b: u128, i: u32)
    requires
        i < 128,
    ensures
        (a | b) & (1u128 << i) != 0 <==> (a & (1u128 << i) != 0 || b & (1u128 << i) != 0),
{
    assert(((a | b) & (1u128 << i) != 0 <==> (a & (1u128 << i) != 0 || b & (1u128 << i) != 0)))
        by (bit_vector)
        requires
            i < 128u32,
    ;
}

/// Bit `i` of an intersection is set exactly when it is set on both sides.
pub proof fn lemma_bit_and(a: u128, b: u128, i: u32)
    requires
        i < 128,
    ensures
        (a & b) & (1u128 << i) != 0 <==> (a & (1u128 << i) != 0 && b & (1u128 << i) != 0),
{
    assert(((a & b) & (1u128 << i) != 0 <==> (a & (1u128 << i) != 0 && b & (1u128 << i) != 0)))
        by (bit_vector)
        requires
            i < 128u32,
    ;
}

/// Clearing bit `i` leaves exactly the other bits.
pub proof fn lemma_bit_clear(a: u128, i: u32, j: u32)
    requires
        i < 128,
        j < 128,
    ensures
        (a & !(1u128 << i)) & (1u128 << j) != 0 <==> (a & (1u128 << j) != 0 && j != i),
        (a & !(1u128 << i)) & a == a & !(1u128 << i),
{
    assert(((a & !(1u128 << i)) & (1u128 << j) != 0 <==> (a & (1u128 << j) != 0 && j != i)) && (a
        & !(1u128 << i)) & a == a & !(1u128 << i)) by (bit_vector)
        requires
            i < 128u32,
            j < 128u32,
    ;
}

/// An intersection is a subset of both of its sides.
pub proof fn lemma_and_subset(a: u128, b: u128)
    ensures
        (a & b) & a == a & b,
        (a & b) & b == a & b,
{
    assert((a & b) & a == (a & b) && (a & b) & b == (a & b)) by (bit_vector);
}

/// A mask is a subset of itself.
pub proof fn lemma_subset_refl(a: u128)
    ensures
        a & a == a,
{
    assert(a & a == a) by (bit_vector);
}

/// Mutual subsets are equal.
pub proof fn lemma_subset_antisym(a: u128, b: u128)
    requires
        a & b == a,
        b & a == b,
    ensures
        a == b,
{
    assert(a == b) by (bit_vector)
        requires
            a & b == a,
            b & a == b,
    ;
}

/// Subsets compose.
pub proof fn lemma_subset_trans(a: u128, b: u128, c: u128)
    requires
        a & b == a,
        b & c == b,
    ensures
        a & c == a,
{
    assert(a & c == a) by (bit_vector)
        requires
            a & b == a,
            b & c == b,
    ;
}

/// A bit of a subset is a bit of the superset.
pub proof fn lemma_subset_bit(a: u128, b: u128, i: u32)
    requires
        i < 128,
        a & b == a,
        a & (1u128 << i) != 0,
    ensures
        b & (1u128 << i) != 0,
{
    assert(b & (1u128 << i) != 0) by (bit_vector)
        requires
            i < 128u32,
            a & b == a,
            a & (1u128 << i) != 0,
    ;
}

/// Law: a non-empty subset of a single-bit mask is that mask. Together with
/// the engine's guarantee that cells only shrink, a cell seeded with one
/// forced tile still holds exactly that tile whenever it is non-empty.
pub proof fn lemma_forced_cell(c: u128, i: u32)
    requires
        i < 128,
        c & (1u128 << i) == c,
        c != 0,
    ensures
        c == 1u128 << i,
{
    assert(c == 1u128 << i) by (bit_vector)
        requires
            i < 128u32,
            c & (1u128 << i) == c,
            c != 0,
    ;
}

/// A set bit of a mask forms a single-bit subset of it.
pub proof fn lemma_single_subset(c: u128, b: u32)
    requires
        b < 128,
        c & (1u128 << b) != 0,
    ensures
        (1u128 << b) & c == (1u128 << b),
{
    assert((1u128 << b) & c == (1u128 << b)) by (bit_vector)
        requires
            b < 128u32,
            c & (1u128 << b) != 0,
    ;
}

} // verus!
