//! Verified core of a Game Boy Advance support library.
//!
//! The library decides; it touches no hardware. It computes the register
//! values that enable interrupt sources and start timers, runs the handlers
//! of one interrupt pass in priority order, and moves a game's save blob to
//! and from a store in chunks. Whoever calls it reads the device's registers
//! and writes the values that it returns.
//!
//! * [`timer`]: from a cycle count to a reload value and a prescaler.
//! * [`irq`]: the interrupt controller and its register values.
//! * [`dispatch`]: one pass of interrupt servicing.
//! * [`save`]: chunked save and load on a store; [`faithful`]: what they come
//!   to on a store that keeps its bytes; [`memory`]: such a store.
//! * [`system`]: game, display and controller together.
//! * [`graphics`]: display configuration, pixel cursor and colours.
//! * [`assets`]: assets and their registry.
//! * [`gba_ext`], [`heapless_ext`]: what is taken on trust of the `gba` and
//!   `heapless` crates.

pub mod assets;
pub mod dispatch;
pub mod faithful;
pub mod gba_ext;
pub mod graphics;
pub mod heapless_ext;
pub mod irq;
pub mod memory;
pub mod prelude;
pub mod save;
pub mod system;
pub mod timer;
