//! Assets and the registry that hands out identifiers for them.

use crate::graphics::GraphicAsset;
use crate::heapless_ext::{
    asset_items, assets_get, assets_get_mut, assets_len, assets_new, assets_push, ident_items,
    idents_contains, idents_is_empty, idents_len, idents_new, idents_pop, idents_push,
};
use vstd::prelude::*;

verus! {

/// Identifier of a registered asset: the index of its slot.
pub type AssetsManagerIdent = usize;

/// Number of slots of a registry.
pub const ASSET_CAPACITY: usize = 64;

/// What kind of thing an asset is.
#[derive(Debug)]
pub enum AssetType {
    Graphic(GraphicAsset),
}

/// A piece of read-only data that ships with the program.
#[derive(Debug)]
pub struct Asset {
    data: &'static [u8],
    dcp_size: usize,
    pub asset_type: AssetType,
}

impl Asset {
    /// The bytes of the asset as they ship.
    pub closed spec fn data(&self) -> Seq<u8> {
        self.data@
    }

    /// Size of the asset once unpacked, in bytes.
    pub closed spec fn dcp_size(&self) -> usize {
        self.dcp_size
    }

    /// What kind of thing the asset is.
    pub closed spec fn kind(&self) -> AssetType {
        self.asset_type
    }

    /// An asset of the given data, unpacked size and kind.
    pub fn create(data: &'static [u8], dcp_size: usize, asset_type: AssetType) -> (asset: Asset)
        ensures
            asset.data() == data@,
            asset.dcp_size() == dcp_size,
            asset.kind() == asset_type,
    {
        Asset { data, dcp_size, asset_type }
    }
}

/// A table of asset slots. Registering fills the slot that was freed last,
/// or a new one if none is free; unregistering frees a slot; a freed slot
/// cannot be looked up.
pub struct AssetVec {
    vec: heapless::Vec<&'static Asset, ASSET_CAPACITY>,
    removed: heapless::Vec<AssetsManagerIdent, ASSET_CAPACITY>,
}

impl AssetVec {
    /// Every freed identifier names a slot of the table.
    #[verifier::type_invariant]
    spec fn freed_in_table(self) -> bool {
        forall|i: int|
            0 <= i < ident_items(self.removed).len() ==> #[trigger] ident_items(self.removed)[i]
                < asset_items(self.vec).len()
    }

    /// The slots, by identifier.
    pub closed spec fn slots(&self) -> Seq<&'static Asset> {
        asset_items(self.vec)
    }

    /// The freed identifiers, the one freed last at the end.
    pub closed spec fn freed(&self) -> Seq<AssetsManagerIdent> {
        ident_items(self.removed)
    }

    /// Whether an asset can be registered: a slot is free, or the table has
    /// room for a new one.
    pub open spec fn spec_can_register(&self) -> bool {
        self.freed().len() > 0 || self.slots().len() < ASSET_CAPACITY
    }

    /// Whether `ind` can be unregistered: it names a slot, and the list of
    /// freed identifiers has room.
    pub open spec fn spec_can_unregister(&self, ind: AssetsManagerIdent) -> bool {
        ind < self.slots().len() && self.freed().len() < ASSET_CAPACITY
    }

    /// An empty table.
    pub fn new() -> (table: AssetVec)
        ensures
            table.slots().len() == 0,
            table.freed().len() == 0,
    {
        AssetVec { vec: assets_new(), removed: idents_new() }
    }

    #[verifier::when_used_as_spec(spec_can_register)]
    pub fn can_register(&self) -> (b: bool)
        ensures
            b == self.spec_can_register(),
    {
        !idents_is_empty(&self.removed) || assets_len(&self.vec) < ASSET_CAPACITY
    }

    #[verifier::when_used_as_spec(spec_can_unregister)]
    pub fn can_unregister(&self, ind: AssetsManagerIdent) -> (b: bool)
        ensures
            b == self.spec_can_unregister(ind),
    {
        ind < assets_len(&self.vec) && idents_len(&self.removed) < ASSET_CAPACITY
    }

    /// Puts `asset` in the slot that was freed last, or in a new slot if none
    /// is free, and returns the slot's identifier.
    pub fn register(&mut self, asset: &'static Asset) -> (id: AssetsManagerIdent)
        requires
            old(self).can_register(),
        ensures
            old(self).freed().len() == 0 ==> {
                &&& id == old(self).slots().len()
                &&& final(self).slots() == old(self).slots().push(asset)
                &&& final(self).freed() == old(self).freed()
            },
            old(self).freed().len() > 0 ==> {
                &&& id == old(self).freed().last()
                &&& final(self).slots() == old(self).slots().update(id as int, asset)
                &&& final(self).freed() == old(self).freed().drop_last()
            },
    {
        proof {
            use_type_invariant(&*self);
        }
        if idents_is_empty(&self.removed) {
            let pushed = assets_push(&mut self.vec, asset);
            assets_len(&self.vec) - 1
        } else {
            let id = idents_pop(&mut self.removed).unwrap();
            let slot = assets_get_mut(&mut self.vec, id).unwrap();
            *slot = asset;
            id
        }
    }

    /// Frees the slot `ind`. What the slot holds stays until the slot is
    /// filled again.
    pub fn unregister(&mut self, ind: AssetsManagerIdent)
        requires
            old(self).can_unregister(ind),
        ensures
            final(self).slots() == old(self).slots(),
            final(self).freed() == old(self).freed().push(ind),
    {
        proof {
            use_type_invariant(&*self);
        }
        let pushed = idents_push(&mut self.removed, ind);
    }

    /// The asset in slot `ind`, unless the slot is freed or there is no such
    /// slot.
    pub fn get(&self, ind: AssetsManagerIdent) -> (r: Option<&&'static Asset>)
        ensures
            match r {
                Some(asset) => !self.freed().contains(ind) && ind < self.slots().len() && *asset
                    == self.slots()[ind as int],
                None => self.freed().contains(ind) || ind >= self.slots().len(),
            },
    {
        if idents_contains(&self.removed, ind) {
            None
        } else {
            assets_get(&self.vec, ind)
        }
    }
}

/// The registry of the assets of a program.
pub struct AssetsManager {
    assets: AssetVec,
}

impl AssetsManager {
    /// The table that the registry keeps.
    pub closed spec fn table(&self) -> AssetVec {
        self.assets
    }

    /// A registry without assets.
    pub fn new() -> (manager: AssetsManager)
        ensures
            manager.table().slots().len() == 0,
            manager.table().freed().len() == 0,
    {
        AssetsManager { assets: AssetVec::new() }
    }

    /// Registers `asset` and returns its identifier.
    pub fn register_asset(&mut self, asset: &'static Asset) -> (id: AssetsManagerIdent)
        requires
            old(self).table().can_register(),
        ensures
            old(self).table().freed().len() == 0 ==> {
                &&& id == old(self).table().slots().len()
                &&& final(self).table().slots() == old(self).table().slots().push(asset)
                &&& final(self).table().freed() == old(self).table().freed()
            },
            old(self).table().freed().len() > 0 ==> {
                &&& id == old(self).table().freed().last()
                &&& final(self).table().slots() == old(self).table().slots().update(
                    id as int,
                    asset,
                )
                &&& final(self).table().freed() == old(self).table().freed().drop_last()
            },
    {
        self.assets.register(asset)
    }
}

} // verus!
