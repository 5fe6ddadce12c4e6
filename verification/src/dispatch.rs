//! One pass of interrupt servicing: which handlers run, in which order, and
//! what is acknowledged afterwards.

use crate::irq::{interrupt_enable_bits, lemma_enable_bit, Irq};
use vstd::prelude::*;

verus! {

/// The handlers of an application, one per interrupt source, over a shared
/// state of type `S`.
pub trait IrqHandlers<S> {
    /// How the handler of `source` may change the shared state. Unless an
    /// implementation says more, a handler may change it in any way.
    open spec fn effect(&self, source: Irq, before: S, after: S) -> bool {
        true
    }

    /// Runs the handler of `source` on the shared state.
    fn handle(&self, source: Irq, state: &mut S)
        ensures
            self.effect(source, *old(state), *final(state)),
    ;
}

/// A table of five handlers, one per interrupt source, each a function that
/// takes the shared state by mutable reference.
pub struct HandlerTable<
    S,
    V: Fn(&mut S),
    H: Fn(&mut S),
    C: Fn(&mut S),
    T0: Fn(&mut S),
    T1: Fn(&mut S),
> {
    vblank: V,
    hblank: H,
    vcount: C,
    timer0: T0,
    timer1: T1,
    state: core::marker::PhantomData<S>,
}

impl<
    S,
    V: Fn(&mut S),
    H: Fn(&mut S),
    C: Fn(&mut S),
    T0: Fn(&mut S),
    T1: Fn(&mut S),
> HandlerTable<S, V, H, C, T0, T1> {
    /// Every handler can be run on every state.
    #[verifier::type_invariant]
    spec fn callable(self) -> bool {
        &&& forall|s: &mut S| call_requires(self.vblank, (s,))
        &&& forall|s: &mut S| call_requires(self.hblank, (s,))
        &&& forall|s: &mut S| call_requires(self.vcount, (s,))
        &&& forall|s: &mut S| call_requires(self.timer0, (s,))
        &&& forall|s: &mut S| call_requires(self.timer1, (s,))
    }

    /// The handler of VBlank.
    pub closed spec fn vblank(&self) -> V {
        self.vblank
    }

    /// The handler of HBlank.
    pub closed spec fn hblank(&self) -> H {
        self.hblank
    }

    /// The handler of VCount.
    pub closed spec fn vcount(&self) -> C {
        self.vcount
    }

    /// The handler of Timer0.
    pub closed spec fn timer0(&self) -> T0 {
        self.timer0
    }

    /// The handler of Timer1.
    pub closed spec fn timer1(&self) -> T1 {
        self.timer1
    }

    /// The table of the given handlers, which must accept every state.
    pub fn new(vblank: V, hblank: H, vcount: C, timer0: T0, timer1: T1) -> (table: Self)
        requires
            forall|s: &mut S| call_requires(vblank, (s,)),
            forall|s: &mut S| call_requires(hblank, (s,)),
            forall|s: &mut S| call_requires(vcount, (s,)),
            forall|s: &mut S| call_requires(timer0, (s,)),
            forall|s: &mut S| call_requires(timer1, (s,)),
        ensures
            table.vblank() == vblank,
            table.hblank() == hblank,
            table.vcount() == vcount,
            table.timer0() == timer0,
            table.timer1() == timer1,
    {
        HandlerTable {
            vblank,
            hblank,
            vcount,
            timer0,
            timer1,
            state: core::marker::PhantomData,
        }
    }
}

impl<
    S,
    V: Fn(&mut S),
    H: Fn(&mut S),
    C: Fn(&mut S),
    T0: Fn(&mut S),
    T1: Fn(&mut S),
> IrqHandlers<S> for HandlerTable<S, V, H, C, T0, T1> {
    /// Runs the table's handler of `source`, once, and no other: the state
    /// changes as one call of that handler changes it.
    fn handle(&self, source: Irq, state: &mut S)
        ensures
            source == Irq::VBlank ==> exists|run: &mut S|
                *run == *old(state) && *final(run) == *final(state) && #[trigger] call_ensures(
                    self.vblank(),
                    (run,),
                    (),
                ),
            source == Irq::HBlank ==> exists|run: &mut S|
                *run == *old(state) && *final(run) == *final(state) && #[trigger] call_ensures(
                    self.hblank(),
                    (run,),
                    (),
                ),
            source == Irq::VCount ==> exists|run: &mut S|
                *run == *old(state) && *final(run) == *final(state) && #[trigger] call_ensures(
                    self.vcount(),
                    (run,),
                    (),
                ),
            source == Irq::Timer0 ==> exists|run: &mut S|
                *run == *old(state) && *final(run) == *final(state) && #[trigger] call_ensures(
                    self.timer0(),
                    (run,),
                    (),
                ),
            source == Irq::Timer1 ==> exists|run: &mut S|
                *run == *old(state) && *final(run) == *final(state) && #[trigger] call_ensures(
                    self.timer1(),
                    (run,),
                    (),
                ),
    {
        proof {
            use_type_invariant(self);
        }
        let ghost before = *state;
        match source {
            Irq::VBlank => {
                let handler = &self.vblank;
                assert(*handler == self.vblank());
                handler(state);
                assert(exists|run: &mut S|
                    *run == before && *final(run) == *state && #[trigger] call_ensures(
                        *handler,
                        (run,),
                        (),
                    ));
            },
            Irq::HBlank => {
                let handler = &self.hblank;
                assert(*handler == self.hblank());
                handler(state);
                assert(exists|run: &mut S|
                    *run == before && *final(run) == *state && #[trigger] call_ensures(
                        *handler,
                        (run,),
                        (),
                    ));
            },
            Irq::VCount => {
                let handler = &self.vcount;
                assert(*handler == self.vcount());
                handler(state);
                assert(exists|run: &mut S|
                    *run == before && *final(run) == *state && #[trigger] call_ensures(
                        *handler,
                        (run,),
                        (),
                    ));
            },
            Irq::Timer0 => {
                let handler = &self.timer0;
                assert(*handler == self.timer0());
                handler(state);
                assert(exists|run: &mut S|
                    *run == before && *final(run) == *state && #[trigger] call_ensures(
                        *handler,
                        (run,),
                        (),
                    ));
            },
            Irq::Timer1 => {
                let handler = &self.timer1;
                assert(*handler == self.timer1());
                handler(state);
                assert(exists|run: &mut S|
                    *run == before && *final(run) == *state && #[trigger] call_ensures(
                        *handler,
                        (run,),
                        (),
                    ));
            },
        }
    }
}

/// The five sources in the order in which they are serviced.
pub open spec fn priority_order() -> Seq<Irq> {
    Seq::new(5, |rank: int| Irq::of_rank(rank))
}

/// Whether the bit of `source` is set in `snapshot`.
pub open spec fn is_pending(snapshot: u16, source: Irq) -> bool {
    snapshot & source.spec_bit() != 0
}

/// The sources among the first `n` of the priority order that are pending in
/// `snapshot`, in priority order.
pub open spec fn service_prefix(snapshot: u16, n: int) -> Seq<Irq>
    decreases n,
{
    if n <= 0 {
        Seq::empty()
    } else if is_pending(snapshot, Irq::of_rank(n - 1)) {
        service_prefix(snapshot, n - 1).push(Irq::of_rank(n - 1))
    } else {
        service_prefix(snapshot, n - 1)
    }
}

/// The sources that one pass services, in the order in which it services
/// them: those pending in `snapshot`, by priority.
pub open spec fn service_order(snapshot: u16) -> Seq<Irq> {
    service_prefix(snapshot, 5)
}

/// Whether running the handlers of `order`, one after the other, can take the
/// shared state from `before` to `after`.
pub open spec fn handled<S, H: IrqHandlers<S>>(
    handlers: &H,
    order: Seq<Irq>,
    before: S,
    after: S,
) -> bool
    decreases order.len(),
{
    if order.len() == 0 {
        before == after
    } else {
        exists|mid: S|
            handled(handlers, order.drop_last(), before, mid) && #[trigger] handlers.effect(
                order.last(),
                mid,
                after,
            )
    }
}

/// What a pass writes back when its handlers have run: the snapshot to the
/// acknowledge register first, the wait flags second.
#[derive(Clone, Copy, Debug, PartialEq, Eq, Structural)]
pub struct Acknowledge {
    pub irq_acknowledge: u16,
    pub intr_wait_acknowledge: u16,
}

/// The mask of the bits of the first `n` sources.
spec fn prefix_mask(n: int) -> u16 {
    if n <= 0 {
        0
    } else if n == 1 {
        1
    } else if n == 2 {
        3
    } else if n == 3 {
        7
    } else if n == 4 {
        15
    } else {
        31
    }
}

/// A source is pending in a snapshot exactly if the binary digit at the
/// source's rank is 1.
pub proof fn lemma_bit_is_pending(snapshot: u16, source: Irq)
    ensures
        is_pending(snapshot, source) <==> (snapshot as int / source.spec_bit() as int) % 2 == 1,
{
    assert((snapshot / 1) % 2 == 1 <==> snapshot & 1 != 0) by (bit_vector);
    assert((snapshot / 2) % 2 == 1 <==> snapshot & 2 != 0) by (bit_vector);
    assert((snapshot / 4) % 2 == 1 <==> snapshot & 4 != 0) by (bit_vector);
    assert((snapshot / 8) % 2 == 1 <==> snapshot & 8 != 0) by (bit_vector);
    assert((snapshot / 16) % 2 == 1 <==> snapshot & 16 != 0) by (bit_vector);
}

proof fn lemma_wait_flags_step(flags: u16, snapshot: u16, wait: u16, n: int)
    requires
        0 <= n < 5,
        wait == flags | (snapshot & prefix_mask(n)),
    ensures
        snapshot & Irq::of_rank(n).spec_bit() != 0 ==> wait | Irq::of_rank(n).spec_bit() == flags
            | (snapshot & prefix_mask(n + 1)),
        snapshot & Irq::of_rank(n).spec_bit() == 0 ==> wait == flags | (snapshot & prefix_mask(
            n + 1,
        )),
{
    assert(snapshot & 1 != 0 ==> (flags | (snapshot & 0)) | 1 == flags | (snapshot & 1))
        by (bit_vector);
    assert(snapshot & 1 == 0 ==> flags | (snapshot & 0) == flags | (snapshot & 1))
        by (bit_vector);
    assert(snapshot & 2 != 0 ==> (flags | (snapshot & 1)) | 2 == flags | (snapshot & 3))
        by (bit_vector);
    assert(snapshot & 2 == 0 ==> flags | (snapshot & 1) == flags | (snapshot & 3))
        by (bit_vector);
    assert(snapshot & 4 != 0 ==> (flags | (snapshot & 3)) | 4 == flags | (snapshot & 7))
        by (bit_vector);
    assert(snapshot & 4 == 0 ==> flags | (snapshot & 3) == flags | (snapshot & 7))
        by (bit_vector);
    assert(snapshot & 8 != 0 ==> (flags | (snapshot & 7)) | 8 == flags | (snapshot & 15))
        by (bit_vector);
    assert(snapshot & 8 == 0 ==> flags | (snapshot & 7) == flags | (snapshot & 15))
        by (bit_vector);
    assert(snapshot & 16 != 0 ==> (flags | (snapshot & 15)) | 16 == flags | (snapshot & 31))
        by (bit_vector);
    assert(snapshot & 16 == 0 ==> flags | (snapshot & 15) == flags | (snapshot & 31))
        by (bit_vector);
}

proof fn lemma_service_prefix(snapshot: u16, n: int)
    requires
        0 <= n <= 5,
    ensures
        forall|k: int|
            0 <= k < service_prefix(snapshot, n).len() ==> (#[trigger] service_prefix(
                snapshot,
                n,
            )[k]).index() < n && is_pending(snapshot, service_prefix(snapshot, n)[k]),
        forall|i: int, j: int|
            0 <= i < j < service_prefix(snapshot, n).len() ==> (#[trigger] service_prefix(
                snapshot,
                n,
            )[i]).index() < (#[trigger] service_prefix(snapshot, n)[j]).index(),
        forall|source: Irq|
            source.index() < n && is_pending(snapshot, source) ==> service_prefix(
                snapshot,
                n,
            ).contains(source),
    decreases n,
{
    if n > 0 {
        lemma_service_prefix(snapshot, n - 1);
        let shorter = service_prefix(snapshot, n - 1);
        let longer = service_prefix(snapshot, n);
        let last = Irq::of_rank(n - 1);
        assert(last.index() == n - 1);
        assert forall|source: Irq|
            source.index() < n && is_pending(snapshot, source) implies longer.contains(source) by {
            if source.index() < n - 1 {
                let k = choose|k: int| 0 <= k < shorter.len() && shorter[k] == source;
                assert(longer[k] == source);
            } else {
                assert(source == last);
                assert(longer[longer.len() - 1] == source);
            }
        }
    }
}

/// A pass services a source exactly if the source is pending in the
/// snapshot: no handler runs for a source that is absent from it.
pub proof fn lemma_serviced_iff_pending(snapshot: u16, source: Irq)
    ensures
        service_order(snapshot).contains(source) <==> is_pending(snapshot, source),
{
    lemma_service_prefix(snapshot, 5);
}

/// A pass services its sources by rising rank: VBlank before HBlank before
/// VCount before Timer0 before Timer1.
pub proof fn lemma_serviced_by_priority(snapshot: u16, i: int, j: int)
    requires
        0 <= i < j < service_order(snapshot).len(),
    ensures
        service_order(snapshot)[i].index() < service_order(snapshot)[j].index(),
{
    lemma_service_prefix(snapshot, 5);
}

/// A pass services no source twice, whatever happens to the pending
/// register while the handlers run: the order is fixed by the snapshot alone.
pub proof fn lemma_serviced_once(snapshot: u16, i: int, j: int)
    requires
        0 <= i < service_order(snapshot).len(),
        0 <= j < service_order(snapshot).len(),
        i != j,
    ensures
        service_order(snapshot)[i] != service_order(snapshot)[j],
{
    lemma_service_prefix(snapshot, 5);
    if i < j {
        lemma_serviced_by_priority(snapshot, i, j);
    } else {
        lemma_serviced_by_priority(snapshot, j, i);
    }
}

/// A source that the controller has not enabled is never serviced: under the
/// interrupt-enable value of a set of sources, the snapshot holds none but
/// sources of the set that are pending.
pub proof fn lemma_snapshot_within_mask(pending: u16, mask: Set<Irq>, source: Irq)
    ensures
        is_pending(pending & (interrupt_enable_bits(mask) as u16), source) <==> is_pending(
            pending,
            source,
        ) && mask.contains(source),
{
    let enabled = interrupt_enable_bits(mask) as u16;
    let bit = source.spec_bit();
    lemma_bit_is_pending(enabled, source);
    lemma_enable_bit(mask, source);
    assert(((pending & enabled) & bit != 0) <==> (pending & bit != 0 && enabled & bit != 0))
        by (bit_vector)
        requires
            bit == 1 || bit == 2 || bit == 4 || bit == 8 || bit == 16,
    ;
}

/// Services one interrupt signal. The sources that are both pending and
/// enabled at entry form the snapshot of the pass. The handler of each source
/// in the snapshot runs once, in priority order, on `state`; no other handler
/// runs. The result acknowledges the whole snapshot and adds the serviced
/// sources to the wait flags.
pub fn dispatch<S, H: IrqHandlers<S>>(
    handlers: &H,
    pending: u16,
    enabled: u16,
    intr_wait_flags: u16,
    state: &mut S,
) -> (ack: Acknowledge)
    ensures
        ack.irq_acknowledge == pending & enabled,
        ack.intr_wait_acknowledge == intr_wait_flags | ((pending & enabled) & 31),
        handled(handlers, service_order(pending & enabled), *old(state), *final(state)),
{
    let snapshot = pending & enabled;
    let order = [Irq::VBlank, Irq::HBlank, Irq::VCount, Irq::Timer0, Irq::Timer1];
    let mut wait = intr_wait_flags;
    let ghost entry = *state;
    assert(wait == intr_wait_flags | (snapshot & 0)) by (bit_vector)
        requires
            wait == intr_wait_flags,
    ;
    let mut i: usize = 0;
    while i < 5
        invariant
            i <= 5,
            order@ =~= priority_order(),
            wait == intr_wait_flags | (snapshot & prefix_mask(i as int)),
            handled(handlers, service_prefix(snapshot, i as int), entry, *state),
        decreases 5 - i,
    {
        let source = order[i];
        proof {
            lemma_wait_flags_step(intr_wait_flags, snapshot, wait, i as int);
        }
        if snapshot & source.bit() != 0 {
            let ghost mid = *state;
            handlers.handle(source, state);
            wait = wait | source.bit();
            proof {
                let served = service_prefix(snapshot, i as int + 1);
                assert(served.drop_last() == service_prefix(snapshot, i as int));
                assert(handlers.effect(served.last(), mid, *state));
            }
        }
        i = i + 1;
    }
    Acknowledge { irq_acknowledge: snapshot, intr_wait_acknowledge: wait }
}

} // verus!
