//! Cells of the S2 hierarchy, as the 64-bit numbers that identify them.
//!
//! A cell of level `k` is identified by three face bits, `k` pairs of bits
//! that choose a child at each level, one set bit, and zeros below it. The
//! lowest set bit of an identifier therefore tells its level, and clearing
//! the bits below a coarser level's bit, then setting that bit, gives the
//! ancestor at that level.

use vstd::prelude::*;
use vstd::std_specs::bits::*;

verus! {

/// The finest level of the hierarchy.
pub const MAX_LEVEL: u64 = 30;

/// The position of the lowest set bit of a cell at `level`.
pub open spec fn level_shift(level: u64) -> u64 {
    (2 * (30 - level)) as u64
}

/// The lowest set bit of every cell at `level`.
pub open spec fn level_bit(level: u64) -> u64 {
    1u64 << level_shift(level)
}

/// The bits strictly below bit `shift`.
pub open spec fn bits_below(shift: u64) -> u64 {
    ((1u64 << shift) - 1) as u64
}

/// Whether `cell_id` has a level: one of its 62 low bits is set, so that it
/// is no multiple of 2^62. Every valid cell identifier has one.
pub open spec fn has_level(cell_id: u64) -> bool {
    cell_id % 0x4000_0000_0000_0000 != 0
}

/// The level of a cell: thirty minus half the number of its trailing zeros.
pub open spec fn level_of(cell_id: u64) -> u64 {
    (30 - u64_trailing_zeros(cell_id) / 2) as u64
}

/// The identifier of the ancestor of `cell_id` at `level`: the bits of
/// `cell_id` above the level's bit, then that bit, then zeros.
pub open spec fn ancestor_at(cell_id: u64, level: u64) -> u64 {
    (cell_id & !bits_below(level_shift(level))) | level_bit(level)
}

/// The lowest set bit of `cell_id`, or zero if none is set.
pub open spec fn lowest_bit(cell_id: u64) -> u64 {
    if cell_id == 0 {
        0
    } else {
        cell_id & !((cell_id - 1) as u64)
    }
}

/// The smallest identifier among the leaf cells inside `cell_id`.
pub open spec fn range_min(cell_id: u64) -> int {
    cell_id - (lowest_bit(cell_id) - 1)
}

/// The largest identifier among the leaf cells inside `cell_id`.
pub open spec fn range_max(cell_id: u64) -> int {
    cell_id + (lowest_bit(cell_id) - 1)
}

/// Whether the cell `outer` contains the cell `inner`: the identifier of
/// `inner` lies in the range of leaf cells that `outer` spans.
pub open spec fn cell_contains(outer: u64, inner: u64) -> bool {
    range_min(outer) <= inner <= range_max(outer)
}

/// `s2::cellid::CellID::level`, which subtracts half the count of trailing
/// zeros from the maximum level. It underflows unless one of the 62 low bits
/// is set, hence the precondition.
#[verifier::external_body]
fn s2_level(cell_id: u64) -> (level: u64)
    requires
        has_level(cell_id),
    ensures
        level == level_of(cell_id),
{
    s2::cellid::CellID(cell_id).level()
}

/// `s2::cellid::CellID::parent`, which masks off the bits below the bit of
/// `level` and sets that bit. Its shift underflows for a level above the
/// maximum, hence the precondition.
#[verifier::external_body]
fn s2_parent(cell_id: u64, level: u64) -> (parent: u64)
    requires
        level <= MAX_LEVEL,
    ensures
        parent == ancestor_at(cell_id, level),
{
    s2::cellid::CellID(cell_id).parent(level).0
}

/// The bits of `x` below bit `shift` are all zero exactly when `x` has at
/// least `shift` trailing zeros.
proof fn lemma_trailing_zeros_and_low_bits(x: u64, shift: u64)
    requires
        shift <= 63,
    ensures
        (x & bits_below(shift) == 0) <==> u64_trailing_zeros(x) >= shift,
{
    axiom_u64_trailing_zeros(x);
    let zeros: u64 = u64_trailing_zeros(x) as u64;
    if zeros >= shift {
        let up: u64 = (64 - zeros) as u64;
        assert(x << up == 0);
        assert(x & bits_below(shift) == 0) by (bit_vector)
            requires
                shift <= 63,
                shift <= zeros <= 64,
                up == 64 - zeros,
                x << up == 0,
        ;
    } else {
        assert(x & bits_below(shift) != 0) by (bit_vector)
            requires
                zeros < shift <= 63,
                (x >> zeros) & 1 == 1,
        ;
    }
}

/// A cell that has a level has one between 0 and the maximum.
pub proof fn lemma_level_in_range(cell_id: u64)
    requires
        has_level(cell_id),
    ensures
        level_of(cell_id) <= MAX_LEVEL,
        u64_trailing_zeros(cell_id) <= 61,
        level_of(cell_id) == 30 - u64_trailing_zeros(cell_id) / 2,
{
    axiom_u64_trailing_zeros(cell_id);
    lemma_trailing_zeros_and_low_bits(cell_id, 62);
    assert(cell_id & bits_below(62) == cell_id % 0x4000_0000_0000_0000) by (bit_vector);
}

/// A leaf cell, whose identifier is odd, has the maximum level.
pub proof fn lemma_leaf_level(cell_id: u64)
    requires
        cell_id % 2 == 1,
    ensures
        has_level(cell_id),
        level_of(cell_id) == MAX_LEVEL,
{
    axiom_u64_trailing_zeros(cell_id);
    lemma_trailing_zeros_and_low_bits(cell_id, 1);
    assert(cell_id & bits_below(1) != 0 && cell_id % 0x4000_0000_0000_0000 != 0) by (bit_vector)
        requires
            cell_id % 2 == 1,
    ;
}

/// The ancestor at `level` is a cell of that level, whatever it was taken of.
pub proof fn lemma_ancestor_level(cell_id: u64, level: u64)
    requires
        level <= MAX_LEVEL,
    ensures
        has_level(ancestor_at(cell_id, level)),
        level_of(ancestor_at(cell_id, level)) == level,
{
    let ancestor = ancestor_at(cell_id, level);
    let shift = level_shift(level);
    assert(ancestor & bits_below(shift) == 0 && ancestor & bits_below((shift + 1) as u64) != 0
        && ancestor % 0x4000_0000_0000_0000 != 0) by (bit_vector)
        requires
            shift <= 60,
            ancestor == (cell_id & !bits_below(shift)) | (1u64 << shift),
    ;
    lemma_trailing_zeros_and_low_bits(ancestor, shift);
    lemma_trailing_zeros_and_low_bits(ancestor, (shift + 1) as u64);
    assert(u64_trailing_zeros(ancestor) == shift);
}

/// A cell lies inside its ancestor at every level coarser than its own.
pub proof fn lemma_ancestor_contains(cell_id: u64, level: u64)
    requires
        has_level(cell_id),
        level < level_of(cell_id),
    ensures
        cell_contains(ancestor_at(cell_id, level), cell_id),
{
    lemma_level_in_range(cell_id);
    let ancestor = ancestor_at(cell_id, level);
    let shift = level_shift(level);
    lemma_trailing_zeros_and_low_bits(cell_id, shift);
    assert(cell_contains(ancestor, cell_id)) by (bit_vector)
        requires
            shift <= 60,
            cell_id & bits_below(shift) != 0,
            ancestor == (cell_id & !bits_below(shift)) | (1u64 << shift),
    ;
}

/// Ancestors nest: the ancestor at a coarser level is also the ancestor, at
/// that level, of the ancestor at a finer one, and contains it.
pub proof fn lemma_ancestors_nest(cell_id: u64, coarse: u64, fine: u64)
    requires
        coarse <= fine <= MAX_LEVEL,
    ensures
        ancestor_at(ancestor_at(cell_id, fine), coarse) == ancestor_at(cell_id, coarse),
        cell_contains(ancestor_at(cell_id, coarse), ancestor_at(cell_id, fine)),
{
    let high = level_shift(coarse);
    let low = level_shift(fine);
    let outer = ancestor_at(cell_id, coarse);
    let inner = ancestor_at(cell_id, fine);
    assert(((inner & !bits_below(high)) | (1u64 << high)) == outer && cell_contains(outer, inner))
        by (bit_vector)
        requires
            low <= high <= 60,
            outer == (cell_id & !bits_below(high)) | (1u64 << high),
            inner == (cell_id & !bits_below(low)) | (1u64 << low),
    ;
}

/// Whether `cell_id` has a level, so that its ancestors can be asked for.
pub fn cell_has_level(cell_id: u64) -> (r: bool)
    ensures
        r == has_level(cell_id),
{
    cell_id % 0x4000_0000_0000_0000 != 0
}

/// The ancestors of a cell, one for each level from 0 up to, and without,
/// the cell's own level, coarsest first.
///
/// The cell must have a level. Each entry is a cell of the level that is its
/// index, and contains `cell_id`.
pub fn ancestor_chain(cell_id: u64) -> (chain: Vec<u64>)
    requires
        has_level(cell_id),
    ensures
        chain.len() == level_of(cell_id),
        forall|i: int|
            0 <= i < chain.len() ==> {
                &&& #[trigger] chain[i] == ancestor_at(cell_id, i as u64)
                &&& level_of(chain[i]) == i
                &&& cell_contains(chain[i], cell_id)
            },
{
    let depth: u64 = s2_level(cell_id);
    proof {
        lemma_level_in_range(cell_id);
    }
    let mut chain: Vec<u64> = Vec::new();
    let mut level: u64 = 0;
    while level < depth
        invariant
            level <= depth <= MAX_LEVEL,
            depth == level_of(cell_id),
            has_level(cell_id),
            chain.len() == level,
            forall|i: int|
                0 <= i < chain.len() ==> {
                    &&& #[trigger] chain[i] == ancestor_at(cell_id, i as u64)
                    &&& level_of(chain[i]) == i
                    &&& cell_contains(chain[i], cell_id)
                },
        decreases depth - level,
    {
        let ancestor: u64 = s2_parent(cell_id, level);
        proof {
            lemma_ancestor_level(cell_id, level);
            lemma_ancestor_contains(cell_id, level);
        }
        chain.push(ancestor);
        level += 1;
    }
    chain
}

} // verus!
