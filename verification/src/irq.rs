//! The interrupt controller: which sources are enabled, and the register
//! values that make the device agree.

use crate::gba_ext::irq_bits;
use crate::timer::{
    cycles_to_cfg, minimal_prescaler, prescaler_divisor, representable, start_timer,
    timer_control_bits, ConfigurationError, TimerRegisters,
};
use vstd::prelude::*;

verus! {

/// An interrupt source. The order of the variants is the order of the bits in
/// the interrupt registers and the order in which sources are serviced.
#[derive(Clone, Copy, Debug, PartialEq, Eq, Structural)]
pub enum Irq {
    VBlank,
    HBlank,
    VCount,
    Timer0,
    Timer1,
}

impl Irq {
    /// Rank of the source: its bit number in the interrupt registers.
    pub open spec fn index(self) -> int {
        match self {
            Irq::VBlank => 0,
            Irq::HBlank => 1,
            Irq::VCount => 2,
            Irq::Timer0 => 3,
            Irq::Timer1 => 4,
        }
    }

    /// The source of a rank from 0 to 4.
    pub open spec fn of_rank(rank: int) -> Irq {
        if rank <= 0 {
            Irq::VBlank
        } else if rank == 1 {
            Irq::HBlank
        } else if rank == 2 {
            Irq::VCount
        } else if rank == 3 {
            Irq::Timer0
        } else {
            Irq::Timer1
        }
    }

    /// The source's bit in the interrupt registers, as a mask.
    pub open spec fn spec_bit(self) -> u16 {
        match self {
            Irq::VBlank => 1,
            Irq::HBlank => 2,
            Irq::VCount => 4,
            Irq::Timer0 => 8,
            Irq::Timer1 => 16,
        }
    }

    /// The source's bit in the interrupt registers, as a mask.
    #[verifier::when_used_as_spec(spec_bit)]
    pub fn bit(self) -> (mask: u16)
        ensures
            mask == self.spec_bit(),
    {
        match self {
            Irq::VBlank => 1,
            Irq::HBlank => 2,
            Irq::VCount => 4,
            Irq::Timer0 => 8,
            Irq::Timer1 => 16,
        }
    }
}

/// Settings from which an interrupt controller is made.
pub struct IrqConfiguration;

impl IrqConfiguration {
    /// The settings of a controller that starts with VBlank alone.
    pub fn default() -> IrqConfiguration {
        IrqConfiguration {  }
    }
}

/// `weight` if `on` holds, else 0: the value that one set bit adds to a
/// register.
pub open spec fn flag(on: bool, weight: int) -> int {
    if on {
        weight
    } else {
        0
    }
}

/// The interrupt source that a timer channel drives.
pub open spec fn timer_source(timer: u8) -> Irq {
    if timer == 0 {
        Irq::Timer0
    } else {
        Irq::Timer1
    }
}

/// Value of the interrupt-enable register under which exactly the sources in
/// `mask` are delivered: one bit per source, in the order of `Irq`.
pub open spec fn interrupt_enable_bits(mask: Set<Irq>) -> int {
    flag(mask.contains(Irq::VBlank), 1) + flag(mask.contains(Irq::HBlank), 2) + flag(
        mask.contains(Irq::VCount),
        4,
    ) + flag(mask.contains(Irq::Timer0), 8) + flag(mask.contains(Irq::Timer1), 16)
}

/// Value of the display-status register under which the display raises
/// exactly the display sources in `mask`: VBlank at bit 3, HBlank at bit 4,
/// VCount at bit 5.
pub open spec fn display_status_bits(mask: Set<Irq>) -> int {
    flag(mask.contains(Irq::VBlank), 8) + flag(mask.contains(Irq::HBlank), 16) + flag(
        mask.contains(Irq::VCount),
        32,
    )
}

/// The interrupt-enable value of a set of sources has the bit of a source
/// exactly if the set holds the source.
pub proof fn lemma_enable_bit(mask: Set<Irq>, source: Irq)
    ensures
        0 <= interrupt_enable_bits(mask) < 32,
        (interrupt_enable_bits(mask) / source.spec_bit() as int) % 2 == 1 <==> mask.contains(
            source,
        ),
{
}

/// The display-status value of a set of sources has the enable bit of a
/// display source exactly if the set holds the source, and no other bit.
pub proof fn lemma_display_status_bit(mask: Set<Irq>, source: Irq)
    requires
        source.index() < 3,
    ensures
        0 <= display_status_bits(mask) < 64,
        display_status_bits(mask) % 8 == 0,
        (display_status_bits(mask) / (8 * source.spec_bit())) % 2 == 1 <==> mask.contains(source),
{
    let bits = display_status_bits(mask);
    match source {
        Irq::VBlank => assert((bits / 8) % 2 == 1 <==> mask.contains(source)),
        Irq::HBlank => assert((bits / 16) % 2 == 1 <==> mask.contains(source)),
        _ => assert((bits / 32) % 2 == 1 <==> mask.contains(source)),
    }
}

/// The values to write to the device so that it delivers a given set of
/// sources: the display-status register first, the interrupt-enable register
/// second.
#[derive(Clone, Copy, Debug, PartialEq, Eq, Structural)]
pub struct IrqRegisters {
    pub display_status: u16,
    pub interrupt_enable: u16,
}

/// The register values under which the device delivers exactly `mask`.
pub open spec fn registers_for(mask: Set<Irq>) -> IrqRegisters {
    IrqRegisters {
        display_status: display_status_bits(mask) as u16,
        interrupt_enable: interrupt_enable_bits(mask) as u16,
    }
}

/// What programming a timer channel writes: the channel's own registers, then
/// the interrupt registers.
#[derive(Clone, Copy, Debug, PartialEq, Eq, Structural)]
pub struct TimerCommit {
    pub timer: TimerRegisters,
    pub irq: IrqRegisters,
}

/// The interrupt controller. It holds the set of enabled sources; VBlank is
/// always one of them.
pub struct GbaIrq {
    enable_hblank_irq: bool,
    enable_vcount_irq: bool,
    enable_timer0_irq: bool,
    enable_timer1_irq: bool,
}

impl GbaIrq {
    /// The set of enabled sources.
    pub closed spec fn view(&self) -> Set<Irq> {
        Set::new(
            |irq: Irq|
                match irq {
                    Irq::VBlank => true,
                    Irq::HBlank => self.enable_hblank_irq,
                    Irq::VCount => self.enable_vcount_irq,
                    Irq::Timer0 => self.enable_timer0_irq,
                    Irq::Timer1 => self.enable_timer1_irq,
                },
        )
    }

    /// VBlank is enabled in every state of the controller.
    pub proof fn lemma_vblank_enabled(&self)
        ensures
            self@.contains(Irq::VBlank),
    {
    }

    /// Computes the register values for the enabled sources, VBlank among
    /// them. The controller itself does not change.
    pub fn enable_selected_irq(&mut self) -> (regs: IrqRegisters)
        ensures
            *final(self) == *old(self),
            regs == registers_for(old(self)@),
            regs.interrupt_enable & 1 == 1,
            regs.display_status & 8 == 8,
    {
        let interrupt_enable = irq_bits(
            true,
            self.enable_hblank_irq,
            self.enable_vcount_irq,
            self.enable_timer0_irq,
            self.enable_timer1_irq,
        );
        let mut display_status: u16 = 8;
        if self.enable_hblank_irq {
            display_status = display_status + 16;
        }
        if self.enable_vcount_irq {
            display_status = display_status + 32;
        }
        assert(interrupt_enable & 1 == 1) by (bit_vector)
            requires
                interrupt_enable % 2 == 1,
        ;
        assert(display_status & 8 == 8) by (bit_vector)
            requires
                display_status == 8 || display_status == 24 || display_status == 40
                    || display_status == 56,
        ;
        IrqRegisters { display_status, interrupt_enable }
    }

    /// Enables or disables the interrupt of timer channel `timer` and computes
    /// the register values for the new set.
    pub fn set_timer_irq(&mut self, timer: u8, state: bool) -> (regs: IrqRegisters)
        requires
            timer < 2,
        ensures
            final(self)@ == if state {
                old(self)@.insert(timer_source(timer))
            } else {
                old(self)@.remove(timer_source(timer))
            },
            regs == registers_for(final(self)@),
    {
        if timer == 0 {
            self.enable_timer0_irq = state;
        } else {
            self.enable_timer1_irq = state;
        }
        self.enable_selected_irq()
    }

    /// Adds `irq` to the enabled sources. No register value is computed.
    pub fn set_irq(&mut self, irq: Irq)
        ensures
            final(self)@ == old(self)@.insert(irq),
    {
        match irq {
            Irq::VBlank => {},
            Irq::HBlank => self.enable_hblank_irq = true,
            Irq::VCount => self.enable_vcount_irq = true,
            Irq::Timer0 => self.enable_timer0_irq = true,
            Irq::Timer1 => self.enable_timer1_irq = true,
        }
    }

    /// Takes `irq` out of the enabled sources, unless it is VBlank, which
    /// stays. No register value is computed.
    pub fn unset_irq(&mut self, irq: Irq)
        ensures
            final(self)@ == if irq == Irq::VBlank {
                old(self)@
            } else {
                old(self)@.remove(irq)
            },
    {
        match irq {
            Irq::VBlank => {},
            Irq::HBlank => self.enable_hblank_irq = false,
            Irq::VCount => self.enable_vcount_irq = false,
            Irq::Timer0 => self.enable_timer0_irq = false,
            Irq::Timer1 => self.enable_timer1_irq = false,
        }
    }

    /// Programs timer channel `timer` with an explicit reload value and
    /// prescaler selector and enables its interrupt.
    pub fn set_timer_raw(&mut self, timer: u8, init_val: u16, prescaler: u8) -> (commit:
        TimerCommit)
        requires
            timer < 2,
            prescaler < 4,
        ensures
            final(self)@ == old(self)@.insert(timer_source(timer)),
            commit.timer.channel == timer,
            commit.timer.reload == init_val,
            commit.timer.control == timer_control_bits(prescaler),
            commit.irq == registers_for(final(self)@),
    {
        let timer_regs = start_timer(timer, init_val, prescaler);
        let irq_regs = self.set_timer_irq(timer, true);
        TimerCommit { timer: timer_regs, irq: irq_regs }
    }

    /// Programs timer channel `timer` to overflow every `ncycles` clock
    /// cycles, under the smallest prescaler that can count them, and enables
    /// its interrupt. A count that no prescaler can represent is refused and
    /// changes nothing.
    pub fn set_timer_cycles(&mut self, timer: u8, ncycles: u32) -> (r: Result<
        TimerCommit,
        ConfigurationError,
    >)
        requires
            timer < 2,
        ensures
            r is Ok <==> representable(ncycles as int),
            r matches Ok(commit) ==> {
                &&& final(self)@ == old(self)@.insert(timer_source(timer))
                &&& commit.timer.channel == timer
                &&& commit.timer.reload == ncycles as int / prescaler_divisor(
                    minimal_prescaler(ncycles as int),
                )
                &&& commit.timer.control == timer_control_bits(minimal_prescaler(ncycles as int))
                &&& commit.irq == registers_for(final(self)@)
            },
            r matches Err(e) ==> e.cycles == ncycles && *final(self) == *old(self),
    {
        match cycles_to_cfg(ncycles) {
            Ok((reload, prescaler)) => Ok(self.set_timer_raw(timer, reload, prescaler)),
            Err(e) => Err(e),
        }
    }
}

impl From<IrqConfiguration> for GbaIrq {
    /// A controller with VBlank alone enabled.
    fn from(_c: IrqConfiguration) -> (irq: GbaIrq)
        ensures
            irq@ == Set::<Irq>::empty().insert(Irq::VBlank),
    {
        GbaIrq {
            enable_hblank_irq: false,
            enable_vcount_irq: false,
            enable_timer0_irq: false,
            enable_timer1_irq: false,
        }
    }
}

impl vstd::std_specs::convert::FromSpecImpl<IrqConfiguration> for GbaIrq {
    open spec fn obeys_from_spec() -> bool {
        true
    }

    closed spec fn from_spec(_c: IrqConfiguration) -> GbaIrq {
        GbaIrq {
            enable_hblank_irq: false,
            enable_vcount_irq: false,
            enable_timer0_irq: false,
            enable_timer1_irq: false,
        }
    }
}

} // verus!
