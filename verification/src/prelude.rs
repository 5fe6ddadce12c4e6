//! The items that an application needs most often.

pub use crate::dispatch::{dispatch, Acknowledge, HandlerTable, IrqHandlers};
pub use crate::graphics::{colors, GraphicsConfiguration};
pub use crate::irq::{Irq, IrqConfiguration};
pub use crate::save::{SaveStore, StoreFault, TransferError};
pub use crate::system::{GameState, GbaSystem};
pub use gba::video::Color;
