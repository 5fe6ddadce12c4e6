//! Conversion of a cycle count into a timer reload value and prescaler.

use vstd::prelude::*;

verus! {

/// Clock frequency of the device, in cycles per second.
pub const SYSTEM_CLOCK: u32 = 16_780_000;

/// Largest count a 16-bit timer register holds.
pub const RELOAD_MAX: u32 = 65_535;

/// A cycle count that no standard prescaler brings into 16 bits.
#[derive(Clone, Copy, Debug, PartialEq, Eq, Structural)]
pub struct ConfigurationError {
    /// The cycle count that was asked for.
    pub cycles: u32,
}

/// The clock divider that a prescaler selector stands for: 1, 64, 256 or 1024.
pub open spec fn prescaler_divisor(selector: u8) -> int {
    if selector == 0 {
        1
    } else if selector == 1 {
        64
    } else if selector == 2 {
        256
    } else {
        1024
    }
}

/// Whether `cycles`, divided by the selector's divisor, fits a 16-bit register.
pub open spec fn fits(cycles: int, selector: u8) -> bool {
    cycles / prescaler_divisor(selector) <= RELOAD_MAX
}

/// Whether some standard prescaler brings `cycles` into 16 bits.
pub open spec fn representable(cycles: int) -> bool {
    fits(cycles, 3)
}

/// The smallest selector under which `cycles` fits, or 3 if none does.
pub open spec fn minimal_prescaler(cycles: int) -> u8 {
    if fits(cycles, 0) {
        0
    } else if fits(cycles, 1) {
        1
    } else if fits(cycles, 2) {
        2
    } else {
        3
    }
}

/// Picks the smallest prescaler under which `ncycles` fits in 16 bits and
/// returns the divided count with that prescaler's selector.
pub fn cycles_to_cfg(ncycles: u32) -> (r: Result<(u16, u8), ConfigurationError>)
    ensures
        r is Ok <==> representable(ncycles as int),
        r matches Ok((reload, selector)) ==> selector == minimal_prescaler(ncycles as int)
            && reload == ncycles as int / prescaler_divisor(selector),
        r matches Err(e) ==> e.cycles == ncycles,
{
    if ncycles <= RELOAD_MAX {
        Ok((ncycles as u16, 0))
    } else if ncycles / 64 <= RELOAD_MAX {
        Ok(((ncycles / 64) as u16, 1))
    } else if ncycles / 256 <= RELOAD_MAX {
        Ok(((ncycles / 256) as u16, 2))
    } else if ncycles / 1024 <= RELOAD_MAX {
        Ok(((ncycles / 1024) as u16, 3))
    } else {
        Err(ConfigurationError { cycles: ncycles })
    }
}

/// What programming a timer channel writes: the reload register first, the
/// control register second.
#[derive(Clone, Copy, Debug, PartialEq, Eq, Structural)]
pub struct TimerRegisters {
    /// The channel, 0 or 1.
    pub channel: u8,
    pub reload: u16,
    pub control: u16,
}

/// Value of a timer's control register that selects `prescaler` (bits 0 and
/// 1), raises an interrupt on overflow (bit 6) and lets the timer run (bit 7).
pub open spec fn timer_control_bits(prescaler: u8) -> int {
    prescaler + 64 + 128
}

/// Computes what to write to start timer channel `timer` from `init_val`
/// under `prescaler`, with an interrupt on each overflow.
pub fn start_timer(timer: u8, init_val: u16, prescaler: u8) -> (regs: TimerRegisters)
    requires
        timer < 2,
        prescaler < 4,
    ensures
        regs.channel == timer,
        regs.reload == init_val,
        regs.control == timer_control_bits(prescaler),
{
    let control: u16 = prescaler as u16 + 192;
    TimerRegisters { channel: timer, reload: init_val, control }
}

/// Under the selector that `minimal_prescaler` names, a representable count
/// fits; under every smaller selector it does not.
pub proof fn lemma_minimal_prescaler(cycles: int)
    requires
        0 <= cycles,
        representable(cycles),
    ensures
        minimal_prescaler(cycles) <= 3,
        fits(cycles, minimal_prescaler(cycles)),
        forall|s: u8| s < minimal_prescaler(cycles) ==> !fits(cycles, s),
{
}

} // verus!
