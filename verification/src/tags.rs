//! Tag bitmasks: bit `i` of a mask stands for membership in tag `i`.

use vstd::prelude::*;
use vstd::std_specs::bits::u32_trailing_zeros;
use vstd::std_specs::bits::axiom_u32_trailing_zeros;

verus! {

/// Handle of a window, as the display server names it.
pub type Window = u32;

/// Set of tags, one bit per tag.
pub type TagMask = u32;

/// Number of tags a mask can hold.
pub const MAX_TAGS: usize = 32;

/// Two masks share at least one tag.
pub open spec fn masks_overlap(a: TagMask, b: TagMask) -> bool {
    a & b != 0
}

/// The mask that holds exactly tag `tag`.
pub fn tag_mask(tag: usize) -> (mask: TagMask)
    requires
        tag < MAX_TAGS,
    ensures
        mask == 1u32 << tag,
        mask != 0,
{
    assert((1u32 << tag) != 0) by (bit_vector)
        requires
            tag < 32,
    ;
    1u32 << tag
}

/// Index of the lowest tag of `mask`; 32 for the empty mask.
pub fn unmask_tag(mask: TagMask) -> (tag: usize)
    ensures
        tag == u32_trailing_zeros(mask),
        tag <= MAX_TAGS,
        mask == 0 <==> tag == MAX_TAGS,
{
    proof {
        axiom_u32_trailing_zeros(mask);
    }
    mask.trailing_zeros() as usize
}

/// `unmask_tag` undoes `tag_mask`.
pub proof fn lemma_unmask_tag_mask(tag: usize)
    requires
        tag < MAX_TAGS,
    ensures
        u32_trailing_zeros(1u32 << tag) == tag,
{
    let mask = 1u32 << tag;
    let found = u32_trailing_zeros(mask);
    axiom_u32_trailing_zeros(mask);
    assert(mask != 0) by (bit_vector)
        requires
            mask == 1u32 << tag,
            tag < 32,
    ;
    assert(found < 32);
    let found_bits = found as u32;
    let tag_bits = tag as u32;
    assert((mask >> found_bits) & 1u32 == 1u32);
    if found > tag {
        assert((mask >> tag_bits) & 1u32 == 0u32);
        assert((mask >> tag_bits) & 1u32 == 1u32) by (bit_vector)
            requires
                mask == 1u32 << tag_bits,
                tag_bits < 32,
        ;
    }
    if found < tag {
        assert((mask >> found_bits) & 1u32 == 0u32) by (bit_vector)
            requires
                mask == 1u32 << tag_bits,
                tag_bits < 32,
                found_bits < tag_bits,
        ;
    }
}

} // verus!
