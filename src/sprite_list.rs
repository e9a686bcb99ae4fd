//! The per-scanline sprite list, held in a fixed-capacity `ArrayVec` of
//! sort keys.

use arrayvec::ArrayVec;
use vstd::prelude::*;

verus! {

/// Most sprites that one scanline shows.
pub const MAX_SPRITES_PER_LINE: usize = 10;

#[verifier::external_type_specification]
#[verifier::external_body]
#[verifier::reject_recursive_types(T)]
pub struct ExArrayVec<T, const CAP: usize>(ArrayVec<T, CAP>);

/// The items that a sprite list holds, in order.
pub uninterp spec fn sprite_keys(v: ArrayVec<u16, 10>) -> Seq<u16>;

/// Relies on `ArrayVec::new`: a new vector is empty.
#[verifier::external_body]
pub(crate) fn new_sprite_list() -> (r: ArrayVec<u16, 10>)
    ensures
        sprite_keys(r) == Seq::<u16>::empty(),
{
    ArrayVec::new()
}

/// Relies on `ArrayVec::push`: appends the item; it panics only when the
/// vector is full, which `requires` rules out.
#[verifier::external_body]
pub(crate) fn push_sprite(v: &mut ArrayVec<u16, 10>, key: u16)
    requires
        sprite_keys(*old(v)).len() < MAX_SPRITES_PER_LINE,
    ensures
        sprite_keys(*final(v)) == sprite_keys(*old(v)).push(key),
{
    v.push(key)
}

/// Relies on `ArrayVec::len`: the number of items, never above the capacity.
#[verifier::external_body]
pub(crate) fn sprite_count(v: &ArrayVec<u16, 10>) -> (r: usize)
    ensures
        r == sprite_keys(*v).len(),
        r <= MAX_SPRITES_PER_LINE,
{
    v.len()
}

/// Relies on indexing an `ArrayVec` (through its slice): the item at `i`.
#[verifier::external_body]
pub(crate) fn sprite_at(v: &ArrayVec<u16, 10>, i: usize) -> (r: u16)
    requires
        i < sprite_keys(*v).len(),
    ensures
        r == sprite_keys(*v)[i as int],
{
    v[i]
}

/// Relies on `slice::sort_unstable` (reached through `ArrayVec`'s
/// `DerefMut`): the same items, in ascending order.
#[verifier::external_body]
pub(crate) fn sort_sprites(v: &mut ArrayVec<u16, 10>)
    ensures
        sprite_keys(*final(v)).to_multiset() == sprite_keys(*old(v)).to_multiset(),
        forall|i: int, j: int|
            0 <= i <= j < sprite_keys(*final(v)).len() ==> sprite_keys(*final(v))[i]
                <= sprite_keys(*final(v))[j],
{
    v.sort_unstable()
}

} // verus!
