//! Contracts for the fixed-capacity vectors of the `heapless` crate that the
//! asset registry is built on.

use crate::assets::{Asset, ASSET_CAPACITY};
use vstd::prelude::*;

verus! {

/// `heapless::Vec`: a vector that holds at most `N` items, without allocation.
#[verifier::external_type_specification]
#[verifier::external_body]
#[verifier::reject_recursive_types(T)]
pub struct ExHeaplessVec<T, const N: usize>(heapless::Vec<T, N>);

/// The items of a vector of assets, first pushed first.
pub uninterp spec fn asset_items(v: heapless::Vec<&'static Asset, ASSET_CAPACITY>) -> Seq<
    &'static Asset,
>;

/// The items of a vector of identifiers, first pushed first.
pub uninterp spec fn ident_items(v: heapless::Vec<usize, ASSET_CAPACITY>) -> Seq<usize>;

/// `heapless::Vec::new` makes an empty vector.
#[verifier::external_body]
pub(crate) fn assets_new() -> (v: heapless::Vec<&'static Asset, ASSET_CAPACITY>)
    ensures
        asset_items(v) == Seq::<&'static Asset>::empty(),
{
    heapless::Vec::new()
}

/// `heapless::Vec::len` (through the slice that the vector dereferences to)
/// counts the items, which are never more than the capacity.
#[verifier::external_body]
pub(crate) fn assets_len(v: &heapless::Vec<&'static Asset, ASSET_CAPACITY>) -> (n: usize)
    ensures
        n == asset_items(*v).len(),
        n <= ASSET_CAPACITY,
{
    v.len()
}

/// `heapless::Vec::push` appends the item if the vector is not full, and
/// otherwise hands it back and changes nothing.
#[verifier::external_body]
pub(crate) fn assets_push(
    v: &mut heapless::Vec<&'static Asset, ASSET_CAPACITY>,
    asset: &'static Asset,
) -> (r: Result<(), &'static Asset>)
    ensures
        match r {
            Ok(_) => asset_items(*old(v)).len() < ASSET_CAPACITY && asset_items(*final(v))
                == asset_items(*old(v)).push(asset),
            Err(back) => asset_items(*old(v)).len() >= ASSET_CAPACITY && back == asset
                && asset_items(*final(v)) == asset_items(*old(v)),
        },
    no_unwind
{
    v.push(asset)
}

/// `get_mut` on the slice that the vector dereferences to gives the item at
/// `index` to be changed in place, or nothing if there is no such item.
#[verifier::external_body]
pub(crate) fn assets_get_mut<'a>(
    v: &'a mut heapless::Vec<&'static Asset, ASSET_CAPACITY>,
    index: usize,
) -> (r: Option<&'a mut &'static Asset>)
    ensures
        match r {
            Some(slot) => index < asset_items(*old(v)).len() && *slot == asset_items(
                *old(v),
            )[index as int] && asset_items(*final(v)) == asset_items(*old(v)).update(
                index as int,
                *final(slot),
            ),
            None => index >= asset_items(*old(v)).len() && asset_items(*final(v)) == asset_items(
                *old(v),
            ),
        },
    no_unwind
{
    v.get_mut(index)
}

/// `get` on the slice that the vector dereferences to gives the item at
/// `index`, or nothing if there is no such item.
#[verifier::external_body]
pub(crate) fn assets_get<'a>(
    v: &'a heapless::Vec<&'static Asset, ASSET_CAPACITY>,
    index: usize,
) -> (r: Option<&'a &'static Asset>)
    ensures
        match r {
            Some(slot) => index < asset_items(*v).len() && *slot == asset_items(*v)[index as int],
            None => index >= asset_items(*v).len(),
        },
{
    v.get(index)
}

/// `heapless::Vec::new` makes an empty vector.
#[verifier::external_body]
pub(crate) fn idents_new() -> (v: heapless::Vec<usize, ASSET_CAPACITY>)
    ensures
        ident_items(v) == Seq::<usize>::empty(),
{
    heapless::Vec::new()
}

/// `heapless::Vec::len` (through the slice that the vector dereferences to)
/// counts the items, which are never more than the capacity.
#[verifier::external_body]
pub(crate) fn idents_len(v: &heapless::Vec<usize, ASSET_CAPACITY>) -> (n: usize)
    ensures
        n == ident_items(*v).len(),
        n <= ASSET_CAPACITY,
{
    v.len()
}

/// `heapless::Vec::is_empty` tells whether the vector holds no item.
#[verifier::external_body]
pub(crate) fn idents_is_empty(v: &heapless::Vec<usize, ASSET_CAPACITY>) -> (b: bool)
    ensures
        b == (ident_items(*v).len() == 0),
{
    v.is_empty()
}

/// `heapless::Vec::push` appends the item if the vector is not full, and
/// otherwise hands it back and changes nothing.
#[verifier::external_body]
pub(crate) fn idents_push(v: &mut heapless::Vec<usize, ASSET_CAPACITY>, ident: usize) -> (r:
    Result<(), usize>)
    ensures
        match r {
            Ok(_) => ident_items(*old(v)).len() < ASSET_CAPACITY && ident_items(*final(v))
                == ident_items(*old(v)).push(ident),
            Err(back) => ident_items(*old(v)).len() >= ASSET_CAPACITY && back == ident
                && ident_items(*final(v)) == ident_items(*old(v)),
        },
    no_unwind
{
    v.push(ident)
}

/// `heapless::Vec::pop` takes the last item off, or gives nothing and changes
/// nothing if the vector is empty.
#[verifier::external_body]
pub(crate) fn idents_pop(v: &mut heapless::Vec<usize, ASSET_CAPACITY>) -> (r: Option<usize>)
    ensures
        match r {
            Some(ident) => ident_items(*old(v)).len() > 0 && ident == ident_items(*old(v)).last()
                && ident_items(*final(v)) == ident_items(*old(v)).drop_last(),
            None => ident_items(*old(v)).len() == 0 && ident_items(*final(v)) == ident_items(
                *old(v),
            ),
        },
    no_unwind
{
    v.pop()
}

/// `contains` on the slice that the vector dereferences to tells whether some
/// item equals `ident`.
#[verifier::external_body]
pub(crate) fn idents_contains(v: &heapless::Vec<usize, ASSET_CAPACITY>, ident: usize) -> (b: bool)
    ensures
        b == ident_items(*v).contains(ident),
{
    v.contains(&ident)
}

} // verus!
