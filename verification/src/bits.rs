//! Sixty-four bit masks read as sets of square numbers.
//!
//! Every bitboard in the crate is a `u64` in which bit `i` stands for square
//! `i`. The solver treats `&`, `|`, `!` and `<<` as opaque, so the rest of the
//! crate reasons through [`member`] and the lemmas below and never looks at the
//! operators themselves.
use vstd::prelude::*;
use vstd::std_specs::bits::{axiom_u64_trailing_zeros, u64_trailing_zeros};

verus! {

/// The mask in which only bit `i` is set.
pub open spec fn bit(i: u64) -> u64 {
    1u64 << i
}

/// Whether bit `i` of `mask` is set.
pub open spec fn member(mask: u64, i: u64) -> bool {
    mask & (1u64 << i) != 0
}

/// The number of bits set in `mask`.
pub open spec fn count(mask: u64) -> nat
    decreases mask,
{
    if mask == 0 {
        0
    } else {
        (mask % 2) as nat + count(mask / 2)
    }
}

proof fn bv_connectives(a: u64, b: u64, i: u64)
    by (bit_vector)
    requires
        i < 64,
    ensures
        member(a | b, i) == (member(a, i) || member(b, i)),
        member(a & b, i) == (member(a, i) && member(b, i)),
        member(a ^ b, i) == (member(a, i) != member(b, i)),
        member(!a, i) == !member(a, i),
        !member(0u64, i),
        member(a, i) == ((a >> i) & 1u64 == 1u64),
        a != b ==> a ^ b != 0,
{
}

proof fn bv_single(i: u64, j: u64)
    by (bit_vector)
    requires
        i < 64,
        j < 64,
    ensures
        member(bit(i), j) == (i == j),
        bit(i) != 0,
{
}

/// A union holds the squares of either side.
pub broadcast proof fn lemma_member_or(a: u64, b: u64, i: u64)
    requires
        i < 64,
    ensures
        #[trigger] member(a | b, i) == (member(a, i) || member(b, i)),
{
    bv_connectives(a, b, i);
}

/// An intersection holds the squares of both sides.
pub broadcast proof fn lemma_member_and(a: u64, b: u64, i: u64)
    requires
        i < 64,
    ensures
        #[trigger] member(a & b, i) == (member(a, i) && member(b, i)),
{
    bv_connectives(a, b, i);
}

/// A symmetric difference holds the squares of exactly one side.
pub broadcast proof fn lemma_member_xor(a: u64, b: u64, i: u64)
    requires
        i < 64,
    ensures
        #[trigger] member(a ^ b, i) == (member(a, i) != member(b, i)),
{
    bv_connectives(a, b, i);
}

/// A complement holds the squares that the mask lacks.
pub broadcast proof fn lemma_member_not(a: u64, i: u64)
    requires
        i < 64,
    ensures
        #[trigger] member(!a, i) == !member(a, i),
{
    bv_connectives(a, a, i);
}

/// The empty mask holds no square.
pub broadcast proof fn lemma_member_zero(i: u64)
    requires
        i < 64,
    ensures
        !#[trigger] member(0u64, i),
{
    bv_connectives(0, 0, i);
}

/// A single-bit mask holds its own square and no other.
pub broadcast proof fn lemma_member_bit(i: u64, j: u64)
    requires
        i < 64,
        j < 64,
    ensures
        #[trigger] member(bit(i), j) == (i == j),
{
    bv_single(i, j);
}

/// A single-bit mask is never empty.
pub broadcast proof fn lemma_bit_nonzero(i: u64)
    requires
        i < 64,
    ensures
        #[trigger] bit(i) != 0,
{
    bv_single(i, i);
}

pub broadcast group group_bits {
    lemma_member_or,
    lemma_member_and,
    lemma_member_xor,
    lemma_member_not,
    lemma_member_zero,
    lemma_member_bit,
    lemma_bit_nonzero,
}

/// Two masks with the same squares are the same mask.
pub proof fn lemma_mask_ext(a: u64, b: u64)
    requires
        forall|i: u64| i < 64 ==> member(a, i) == member(b, i),
    ensures
        a == b,
{
    if a != b {
        let x = a ^ b;
        bv_connectives(a, b, 0);
        axiom_u64_trailing_zeros(x);
        let k = u64_trailing_zeros(x) as u64;
        bv_connectives(x, x, k);
        bv_connectives(a, b, k);
    }
}

/// A mask with no square is the empty mask, and the other way round.
pub proof fn lemma_zero_iff_empty(a: u64)
    ensures
        a == 0 <==> forall|i: u64| i < 64 ==> !member(a, i),
{
    if a == 0 {
        assert forall|i: u64| i < 64 implies !member(a, i) by {
            bv_connectives(0, 0, i);
        }
    }
    if forall|i: u64| i < 64 ==> !member(a, i) {
        assert forall|i: u64| i < 64 implies member(a, i) == member(0u64, i) by {
            bv_connectives(0, 0, i);
        }
        lemma_mask_ext(a, 0);
    }
}

/// The number of trailing zeros of a non-empty mask is its lowest square.
pub proof fn lemma_lowest(a: u64)
    requires
        a != 0,
    ensures
        u64_trailing_zeros(a) < 64,
        member(a, u64_trailing_zeros(a) as u64),
        forall|j: u64| j < u64_trailing_zeros(a) ==> !member(a, j),
{
    axiom_u64_trailing_zeros(a);
    let k = u64_trailing_zeros(a) as u64;
    bv_connectives(a, a, k);
    assert forall|j: u64| j < k implies !member(a, j) by {
        bv_connectives(a, a, j);
    }
}

/// Two non-empty masks meet exactly when they share a square.
pub proof fn lemma_meet(a: u64, b: u64)
    ensures
        a & b != 0 <==> exists|i: u64| i < 64 && member(a, i) && member(b, i),
{
    let x = a & b;
    if x != 0 {
        lemma_lowest(x);
        let k = u64_trailing_zeros(x) as u64;
        bv_connectives(a, b, k);
        assert(member(a, k) && member(b, k));
    }
    if exists|i: u64| i < 64 && member(a, i) && member(b, i) {
        let i = choose|i: u64| i < 64 && member(a, i) && member(b, i);
        bv_connectives(a, b, i);
        bv_connectives(0, 0, i);
    }
}

/// Taking a square out of a mask that holds it makes the mask smaller as a
/// number.
pub proof fn lemma_clear_lowers(a: u64, i: u64)
    by (bit_vector)
    requires
        i < 64,
        member(a, i),
    ensures
        a & !bit(i) < a,
{
}

/// The squares of `mask` numbered `from` or more, as a set of square
/// numbers.
pub open spec fn squares_from(mask: u64, from: int) -> Set<int> {
    Set::new(|i: int| from <= i < 64 && member(mask, i as u64))
}

/// The squares of `mask`, as a set of square numbers.
pub open spec fn squares(mask: u64) -> Set<int> {
    squares_from(mask, 0)
}

proof fn bv_shift(mask: u64, j: u64, i: u64)
    by (bit_vector)
    requires
        j < 64,
        i < 64,
    ensures
        ((mask >> j) % 2 == 1) == member(mask, j),
        (mask >> j) % 2 == 0 || (mask >> j) % 2 == 1,
        j < 63 ==> (mask >> j) / 2 == mask >> ((j + 1) as u64),
        j == 63 ==> (mask >> j) / 2 == 0,
        (mask >> j == 0 && j <= i) ==> !member(mask, i),
        mask >> 0 == mask,
{
}

/// The squares of a mask numbered `from` or more are as many as the bits
/// that are set in the mask shifted down by `from`.
proof fn lemma_count_from(mask: u64, from: int)
    requires
        0 <= from < 64,
    ensures
        squares_from(mask, from).finite(),
        squares_from(mask, from).len() == count(mask >> (from as u64)),
    decreases 64 - from,
{
    let j = from as u64;
    let shifted = mask >> j;
    let here = squares_from(mask, from);
    bv_shift(mask, j, j);
    if shifted == 0 {
        assert forall|i: int| !here.contains(i) by {
            if from <= i < 64 {
                bv_shift(mask, j, i as u64);
            }
        }
        assert(here =~= Set::<int>::empty());
    } else if from == 63 {
        assert(count(shifted / 2) == 0);
        if member(mask, j) {
            assert(here =~= Set::<int>::empty().insert(63));
        } else {
            assert(here =~= Set::<int>::empty());
        }
    } else {
        lemma_count_from(mask, from + 1);
        let above = squares_from(mask, from + 1);
        assert(shifted / 2 == mask >> ((from + 1) as u64));
        if member(mask, j) {
            assert(here =~= above.insert(from));
        } else {
            assert(here =~= above);
        }
    }
}

/// The squares of a mask are as many as its set bits.
pub proof fn lemma_count_is_len(mask: u64)
    ensures
        squares(mask).finite(),
        squares(mask).len() == count(mask),
{
    bv_shift(mask, 0, 0);
    lemma_count_from(mask, 0);
}

/// The number of squares in `mask`, as `u64::count_ones` reports it: one for
/// each bit that is set.
#[verifier::external_body]
pub(crate) fn count_ones(mask: u64) -> (r: u32)
    ensures
        r as nat == count(mask),
        r <= 64,
{
    mask.count_ones()
}

} // verus!
