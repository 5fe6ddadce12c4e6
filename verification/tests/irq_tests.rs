use gba_core::irq::{GbaIrq, Irq, IrqConfiguration, IrqRegisters};
use gba_core::timer::ConfigurationError;

fn fresh() -> GbaIrq {
    GbaIrq::from(IrqConfiguration::default())
}

#[test]
fn fresh_controller_enables_vblank_alone() {
    let mut irq = fresh();
    let regs = irq.enable_selected_irq();
    assert_eq!(regs, IrqRegisters { display_status: 0b00_1000, interrupt_enable: 0b0_0001 });
}

#[test]
fn commit_leaves_vblank_enabled_after_unset() {
    let mut irq = fresh();
    irq.unset_irq(Irq::VBlank);
    let regs = irq.enable_selected_irq();
    assert_eq!(regs.interrupt_enable & 1, 1);
    assert_eq!(regs.display_status & 0b1000, 0b1000);
    irq.set_irq(Irq::HBlank);
    irq.unset_irq(Irq::VBlank);
    irq.unset_irq(Irq::HBlank);
    irq.unset_irq(Irq::VBlank);
    let regs = irq.enable_selected_irq();
    assert_eq!(regs, IrqRegisters { display_status: 0b00_1000, interrupt_enable: 0b0_0001 });
}

#[test]
fn each_source_has_its_own_bit() {
    let cases = [
        (Irq::VBlank, 0b0_0001u16, 0b00_1000u16),
        (Irq::HBlank, 0b0_0011, 0b01_1000),
        (Irq::VCount, 0b0_0101, 0b10_1000),
        (Irq::Timer0, 0b0_1001, 0b00_1000),
        (Irq::Timer1, 0b1_0001, 0b00_1000),
    ];
    for (source, enable, status) in cases {
        let mut irq = fresh();
        irq.set_irq(source);
        let regs = irq.enable_selected_irq();
        assert_eq!(regs.interrupt_enable, enable);
        assert_eq!(regs.display_status, status);
        assert_eq!(source.bit() & enable, source.bit());
    }
}

#[test]
fn all_sources_enabled() {
    let mut irq = fresh();
    irq.set_irq(Irq::HBlank);
    irq.set_irq(Irq::VCount);
    irq.set_irq(Irq::Timer0);
    irq.set_irq(Irq::Timer1);
    let regs = irq.enable_selected_irq();
    assert_eq!(regs, IrqRegisters { display_status: 0b11_1000, interrupt_enable: 0b1_1111 });
}

#[test]
fn unset_removes_only_the_named_source() {
    let mut irq = fresh();
    irq.set_irq(Irq::HBlank);
    irq.set_irq(Irq::Timer1);
    irq.unset_irq(Irq::HBlank);
    let regs = irq.enable_selected_irq();
    assert_eq!(regs, IrqRegisters { display_status: 0b00_1000, interrupt_enable: 0b1_0001 });
    irq.unset_irq(Irq::Timer0);
    assert_eq!(irq.enable_selected_irq(), regs);
}

#[test]
fn commit_is_repeatable() {
    let mut irq = fresh();
    irq.set_irq(Irq::VCount);
    let first = irq.enable_selected_irq();
    let second = irq.enable_selected_irq();
    assert_eq!(first, second);
}

#[test]
fn set_does_not_depend_on_order() {
    let mut a = fresh();
    a.set_irq(Irq::Timer0);
    a.set_irq(Irq::HBlank);
    let mut b = fresh();
    b.set_irq(Irq::HBlank);
    b.set_irq(Irq::Timer0);
    b.set_irq(Irq::HBlank);
    assert_eq!(a.enable_selected_irq(), b.enable_selected_irq());
}

#[test]
fn set_timer_irq_switches_the_channel() {
    let mut irq = fresh();
    assert_eq!(irq.set_timer_irq(0, true).interrupt_enable, 0b0_1001);
    assert_eq!(irq.set_timer_irq(1, true).interrupt_enable, 0b1_1001);
    assert_eq!(irq.set_timer_irq(0, false).interrupt_enable, 0b1_0001);
    let regs = irq.set_timer_irq(1, false);
    assert_eq!(regs, IrqRegisters { display_status: 0b00_1000, interrupt_enable: 0b0_0001 });
}

#[test]
fn set_timer_raw_programs_and_enables() {
    let mut irq = fresh();
    let commit = irq.set_timer_raw(1, 1_234, 2);
    assert_eq!(commit.timer.channel, 1);
    assert_eq!(commit.timer.reload, 1_234);
    assert_eq!(commit.timer.control, 0b1100_0010);
    assert_eq!(commit.irq, IrqRegisters { display_status: 0b00_1000, interrupt_enable: 0b1_0001 });
    assert_eq!(irq.enable_selected_irq(), commit.irq);
}

#[test]
fn set_timer_cycles_uses_the_calculator() {
    let mut irq = fresh();
    let commit = irq.set_timer_cycles(0, 8_390_000).unwrap();
    assert_eq!(commit.timer.channel, 0);
    assert_eq!(commit.timer.reload, 32_773);
    assert_eq!(commit.timer.control, 0b1100_0010);
    assert_eq!(commit.irq.interrupt_enable, 0b0_1001);
}

#[test]
fn refused_duration_changes_nothing() {
    let mut irq = fresh();
    irq.set_irq(Irq::HBlank);
    let before = irq.enable_selected_irq();
    let r = irq.set_timer_cycles(0, 83_900_000);
    assert_eq!(r, Err(ConfigurationError { cycles: 83_900_000 }));
    assert_eq!(irq.enable_selected_irq(), before);
}

#[test]
fn source_bits_follow_the_enumeration() {
    assert_eq!(Irq::VBlank.bit(), 1);
    assert_eq!(Irq::HBlank.bit(), 2);
    assert_eq!(Irq::VCount.bit(), 4);
    assert_eq!(Irq::Timer0.bit(), 8);
    assert_eq!(Irq::Timer1.bit(), 16);
}
