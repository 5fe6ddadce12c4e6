use gba_core::dispatch::{dispatch, Acknowledge, HandlerTable, IrqHandlers};
use gba_core::irq::{GbaIrq, Irq, IrqConfiguration};

struct Recorder;

impl IrqHandlers<Vec<Irq>> for Recorder {
    fn handle(&self, source: Irq, state: &mut Vec<Irq>) {
        state.push(source);
    }
}

/// A device whose timer 0 raises its interrupt again each time it is handled.
struct Device {
    pending: u16,
    timer0_runs: u32,
    others: u32,
}

struct Reasserting;

impl IrqHandlers<Device> for Reasserting {
    fn handle(&self, source: Irq, state: &mut Device) {
        if source == Irq::Timer0 {
            state.timer0_runs += 1;
            state.pending |= Irq::Timer0.bit();
        } else {
            state.others += 1;
        }
    }
}

#[test]
fn hblank_and_timer0_are_handled_in_priority_order() {
    let mut log = Vec::new();
    let pending = Irq::Timer0.bit() | Irq::HBlank.bit();
    let ack = dispatch(&Recorder, pending, 0b1_1111, 0, &mut log);
    assert_eq!(log, vec![Irq::HBlank, Irq::Timer0]);
    assert!(!log.contains(&Irq::VCount));
    assert!(!log.contains(&Irq::Timer1));
    assert_eq!(ack, Acknowledge { irq_acknowledge: 0b0_1010, intr_wait_acknowledge: 0b0_1010 });
}

#[test]
fn all_sources_are_handled_in_enumeration_order() {
    let mut log = Vec::new();
    let ack = dispatch(&Recorder, 0b1_1111, 0b1_1111, 0, &mut log);
    assert_eq!(log, vec![Irq::VBlank, Irq::HBlank, Irq::VCount, Irq::Timer0, Irq::Timer1]);
    assert_eq!(ack, Acknowledge { irq_acknowledge: 0b1_1111, intr_wait_acknowledge: 0b1_1111 });
}

#[test]
fn nothing_pending_runs_no_handler() {
    let mut log = Vec::new();
    let ack = dispatch(&Recorder, 0, 0b1_1111, 0b10_0000, &mut log);
    assert!(log.is_empty());
    assert_eq!(ack, Acknowledge { irq_acknowledge: 0, intr_wait_acknowledge: 0b10_0000 });
}

#[test]
fn disabled_sources_are_not_handled() {
    let mut log = Vec::new();
    let ack = dispatch(&Recorder, 0b1_1111, 0b0_0101, 0, &mut log);
    assert_eq!(log, vec![Irq::VBlank, Irq::VCount]);
    assert_eq!(ack, Acknowledge { irq_acknowledge: 0b0_0101, intr_wait_acknowledge: 0b0_0101 });
}

#[test]
fn sources_without_a_handler_are_acknowledged_only() {
    let mut log = Vec::new();
    let ack = dispatch(&Recorder, 0xFFFF, 0x1001, 0x0100, &mut log);
    assert_eq!(log, vec![Irq::VBlank]);
    assert_eq!(ack, Acknowledge { irq_acknowledge: 0x1001, intr_wait_acknowledge: 0x0101 });
}

#[test]
fn wait_flags_are_kept_and_extended() {
    let mut log = Vec::new();
    let ack = dispatch(&Recorder, 0b1_0000, 0b1_0001, 0b0_0001, &mut log);
    assert_eq!(log, vec![Irq::Timer1]);
    assert_eq!(ack.intr_wait_acknowledge, 0b1_0001);
    assert_eq!(ack.irq_acknowledge, 0b1_0000);
}

#[test]
fn reasserted_source_waits_for_the_next_pass() {
    let pending = Irq::Timer0.bit() | Irq::VBlank.bit();
    let mut device = Device { pending, timer0_runs: 0, others: 0 };
    let at_entry = device.pending;
    device.pending = 0;
    let ack = dispatch(&Reasserting, at_entry, 0b1_1111, 0, &mut device);
    assert_eq!(device.timer0_runs, 1);
    assert_eq!(device.others, 1);
    assert_eq!(ack.irq_acknowledge, at_entry);
    // What was raised during the pass is still pending after it.
    assert_eq!(device.pending, Irq::Timer0.bit());
    let at_entry = device.pending;
    device.pending = 0;
    let ack = dispatch(&Reasserting, at_entry, 0b1_1111, 0, &mut device);
    assert_eq!(device.timer0_runs, 2);
    assert_eq!(device.others, 1);
    assert_eq!(ack.irq_acknowledge, Irq::Timer0.bit());
}

#[test]
fn dispatch_follows_the_controller() {
    let mut irq = GbaIrq::from(IrqConfiguration::default());
    irq.set_irq(Irq::VCount);
    let enabled = irq.enable_selected_irq().interrupt_enable;
    let mut log = Vec::new();
    let ack = dispatch(&Recorder, 0b1_1111, enabled, 0, &mut log);
    assert_eq!(log, vec![Irq::VBlank, Irq::VCount]);
    assert_eq!(ack.irq_acknowledge, 0b0_0101);
}

fn push_vblank(log: &mut Vec<Irq>) {
    log.push(Irq::VBlank);
}

fn push_hblank(log: &mut Vec<Irq>) {
    log.push(Irq::HBlank);
}

fn push_vcount(log: &mut Vec<Irq>) {
    log.push(Irq::VCount);
}

fn push_timer0(log: &mut Vec<Irq>) {
    log.push(Irq::Timer0);
}

fn push_timer1(log: &mut Vec<Irq>) {
    log.push(Irq::Timer1);
}

#[test]
fn table_runs_the_handler_of_each_source() {
    let table = HandlerTable::new(push_vblank, push_hblank, push_vcount, push_timer0, push_timer1);
    for source in [Irq::Timer1, Irq::VBlank, Irq::VCount, Irq::HBlank, Irq::Timer0] {
        let mut log = Vec::new();
        table.handle(source, &mut log);
        assert_eq!(log, vec![source]);
    }
}

#[test]
fn table_handlers_run_in_priority_order() {
    let table = HandlerTable::new(push_vblank, push_hblank, push_vcount, push_timer0, push_timer1);
    let mut log = Vec::new();
    let ack = dispatch(&table, 0b1_1010, 0b0_1111, 0, &mut log);
    assert_eq!(log, vec![Irq::HBlank, Irq::Timer0]);
    assert_eq!(ack, Acknowledge { irq_acknowledge: 0b0_1010, intr_wait_acknowledge: 0b0_1010 });
}

#[test]
fn table_takes_closures() {
    let table = HandlerTable::new(
        |count: &mut u32| *count += 1,
        |count: &mut u32| *count += 10,
        |count: &mut u32| *count += 100,
        |count: &mut u32| *count += 1_000,
        |count: &mut u32| *count += 10_000,
    );
    let mut count = 0;
    dispatch(&table, 0b1_0101, 0b1_1111, 0, &mut count);
    assert_eq!(count, 10_101);
    dispatch(&table, 0b0_1010, 0b1_1111, 0, &mut count);
    assert_eq!(count, 11_111);
    dispatch(&table, 0b1_1111, 0, 0, &mut count);
    assert_eq!(count, 11_111);
}
