//! The system that an application runs on: its game state, its display state
//! and its interrupt controller, with saving and loading of the game state.

use crate::graphics::{display_control_bits, GbaGraphics, GraphicsConfiguration};
use crate::irq::{GbaIrq, Irq, IrqConfiguration};
use crate::save::{load_blob, loaded, save_blob, saved, SaveStore, TransferError};
use vstd::prelude::*;

verus! {

/// A game whose state can be written to a save blob and rebuilt from one.
///
/// An implementation states which blobs a state is written to and how a blob
/// rebuilds a state; one that states nothing is taken to allow anything.
pub trait GameState: Sized {
    /// Whether `blob` may be the save blob of this state.
    open spec fn saves(&self, blob: Seq<u8>) -> bool {
        true
    }

    /// Whether rebuilding from `data` may take the state from `before` to
    /// `after`.
    open spec fn restores(before: Self, data: Seq<u8>, after: Self) -> bool {
        true
    }

    /// Writes the state to a save blob.
    fn get_gamesave(&self) -> (blob: Vec<u8>)
        ensures
            self.saves(blob@),
    ;

    /// Rebuilds the state from a save blob, which is as long as a blob that
    /// the state is written to.
    fn load_gamesave(&mut self, data: Vec<u8>)
        requires
            exists|blob: Seq<u8>| #[trigger] old(self).saves(blob) && blob.len() == data@.len(),
        ensures
            Self::restores(*old(self), data@, *final(self)),
    ;
}

/// A game together with the display state and the interrupt controller.
pub struct GbaSystem<T: GameState> {
    pub game: T,
    pub graphics: GbaGraphics,
    pub irq: GbaIrq,
}

impl<T: GameState> GbaSystem<T> {
    /// A system around `game`, with the display and the interrupt controller
    /// made from their configurations.
    pub fn new(game: T, gconf: GraphicsConfiguration, iconf: IrqConfiguration) -> (sys: GbaSystem<
        T,
    >)
        ensures
            sys.game == game,
            sys.graphics.cursor() == 0,
            sys.graphics.control() == display_control_bits(gconf),
            sys.irq@ == Set::<Irq>::empty().insert(Irq::VBlank),
    {
        GbaSystem { game, graphics: GbaGraphics::from(gconf), irq: GbaIrq::from(iconf) }
    }

    /// Writes the save blob of the game to `store`: one preparation of the
    /// whole range, then one write per chunk. The system does not change.
    pub fn save<St: SaveStore>(&self, store: &mut St) -> (r: Result<(), TransferError>)
        ensures
            exists|blob: Seq<u8>| #[trigger]
                self.game.saves(blob) && saved(*old(store), blob, r, *final(store)),
    {
        let gsave = self.game.get_gamesave();
        save_blob(store, gsave.as_slice())
    }

    /// Reads a save blob from `store`, one read per chunk, into a buffer as
    /// long as the game's own blob, and rebuilds the game from it. The game is
    /// handed the buffer only when all of it has been read: if a read fails,
    /// the system is what it was.
    pub fn load<St: SaveStore>(&mut self, store: &mut St) -> (r: Result<(), TransferError>)
        ensures
            final(self).graphics == old(self).graphics,
            final(self).irq == old(self).irq,
            r is Err ==> *final(self) == *old(self),
            exists|entry: Seq<u8>, data: Seq<u8>| #[trigger]
                loaded(*old(store), entry, r, data, *final(store)) && old(self).game.saves(entry)
                    && (r is Ok ==> T::restores(old(self).game, data, final(self).game)),
    {
        let mut gsave = self.game.get_gamesave();
        let ghost entry = gsave@;
        let outcome = load_blob(store, &mut gsave);
        match outcome {
            Ok(()) => {
                let ghost data = gsave@;
                self.game.load_gamesave(gsave);
                proof {
                    assert(loaded(*old(store), entry, Ok::<(), TransferError>(()), data, *store));
                }
                Ok(())
            },
            Err(e) => {
                proof {
                    assert(loaded(*old(store), entry, Err::<(), TransferError>(e), gsave@, *store));
                }
                Err(e)
            },
        }
    }
}

} // verus!
