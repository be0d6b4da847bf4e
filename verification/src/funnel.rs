//! The single mutation funnel: every accepted command is one transaction that claims or
//! resolves the receipt, validates authority and fence, compares the version of the named
//! aggregate, appends events, and finalizes the receipt.
//!
//! A commit error is not proof of rejection: the write may be durable. The funnel then answers
//! that the outcome is unknown, poisons itself, and refuses everything after as unavailable; a
//! new lifetime over the recovered store resolves the command by its durable receipt.
//!
//! Time and identity are injected: the funnel owns a logical clock that the caller advances,
//! and mints identifiers from the clock, the authority epoch and a counter.
use crate::ids::{minted, Uuid7};
use crate::store::{Store, StoreView};
use crate::text::opt_view;
use vstd::prelude::*;
use vstd::string::*;

pub mod address_laws;
pub mod apply;
pub mod cancel;
pub mod cancel_laws;
pub mod cancel_rules;
pub mod command;
pub mod effect_laws;
pub mod effect_rules;
pub mod effects;
pub mod ground;
pub mod history_laws;
pub mod laws;
pub mod plan;
pub mod pre;
pub mod receipt;
pub mod run_laws;
pub mod run_rules;
pub mod submit;
pub mod submit_laws;
pub mod target_laws;
pub mod unit_laws;
pub mod validate;

verus! {

/// The first millisecond that no timestamp can show: the year 10000.
pub const CLOCK_LIMIT_MS: u64 = 253_402_300_800_000;

/// The mutation funnel over one store lifetime.
#[derive(Debug)]
pub struct Funnel {
    pub store: Store,
    /// Set after an uncertain commit: every later submission is unavailable.
    pub gate: Option<String>,
    pub clock_ms: u64,
    pub mint_seq: u64,
}

/// The view of a `Funnel`.
pub struct FunnelView {
    pub store: StoreView,
    pub gate: Option<Seq<char>>,
    pub clock_ms: u64,
    pub mint_seq: u64,
}

impl View for Funnel {
    type V = FunnelView;

    open spec fn view(&self) -> FunnelView {
        FunnelView {
            store: self.store@,
            gate: opt_view(self.gate),
            clock_ms: self.clock_ms,
            mint_seq: self.mint_seq,
        }
    }
}

/// The identifier minted at a clock, epoch and count. The epoch rides the high bits of the
/// entropy, so that two lifetimes do not mint one identifier at one millisecond.
pub open spec fn id_value(clock_ms: u64, epoch: u64, seq: u64) -> u128 {
    minted(clock_ms, (epoch * 0x1_0000_0000_0000_0000 + seq) as u128) as u128
}

/// The `k`-th identifier that a funnel will mint from here.
pub open spec fn fresh(f: FunnelView, k: int) -> u128 {
    id_value(f.clock_ms, f.store.epoch.0, (f.mint_seq + k) as u64)
}

/// A funnel after its clock was advanced to a time.
pub open spec fn ticked(f: FunnelView, to_ms: u64) -> FunnelView {
    if f.clock_ms < to_ms && to_ms < CLOCK_LIMIT_MS {
        FunnelView { clock_ms: to_ms, ..f }
    } else {
        f
    }
}

/// The clock never goes back and never beyond the year 9999; to a later time within it, it goes; and
/// nothing else changes.
pub proof fn clocks_go_forward(f: FunnelView, to_ms: u64)
    ensures
        ticked(f, to_ms).clock_ms >= f.clock_ms,
        f.clock_ms <= to_ms < 253_402_300_800_000 ==> ticked(f, to_ms).clock_ms == to_ms,
        to_ms <= f.clock_ms || to_ms >= 253_402_300_800_000 ==> ticked(f, to_ms) == f,
        ticked(f, to_ms) == (FunnelView { clock_ms: ticked(f, to_ms).clock_ms, ..f }),
{
}

impl Funnel {
    /// A funnel over a store. The clock must be one that a timestamp can show.
    pub fn new(store: Store, clock_ms: u64) -> (r: Result<Funnel, String>)
        ensures
            match r {
                Ok(f) => clock_ms < CLOCK_LIMIT_MS && f@ == (FunnelView {
                    store: store@,
                    gate: None,
                    clock_ms,
                    mint_seq: 0,
                }),
                Err(detail) => clock_ms >= CLOCK_LIMIT_MS && detail@
                    == "clock is beyond the representable time"@,
            },
    {
        if clock_ms >= CLOCK_LIMIT_MS {
            return Err("clock is beyond the representable time".to_owned());
        }
        Ok(Funnel { store, gate: None, clock_ms, mint_seq: 0 })
    }

    /// The store.
    pub fn store(&self) -> (r: &Store)
        ensures
            r@ == self@.store,
    {
        &self.store
    }

    /// Gives the store back.
    pub fn into_store(self) -> (r: Store)
        ensures
            r@ == self@.store,
    {
        self.store
    }

    /// Advances the logical clock. Lower values are ignored; a value that no timestamp can
    /// show is refused.
    pub fn tick(&mut self, to_ms: u64) -> (r: Result<(), String>)
        ensures
            match r {
                Ok(()) => to_ms < CLOCK_LIMIT_MS && final(self)@ == (FunnelView {
                    clock_ms: if to_ms > old(self)@.clock_ms {
                        to_ms
                    } else {
                        old(self)@.clock_ms
                    },
                    ..old(self)@
                }),
                Err(detail) => to_ms >= CLOCK_LIMIT_MS && final(self)@ == old(self)@ && detail@
                    == "clock is beyond the representable time"@,
            },
            final(self)@ == ticked(old(self)@, to_ms),
            r is Ok <==> to_ms < CLOCK_LIMIT_MS,
    {
        if to_ms >= CLOCK_LIMIT_MS {
            return Err("clock is beyond the representable time".to_owned());
        }
        if to_ms > self.clock_ms {
            self.clock_ms = to_ms;
        }
        Ok(())
    }

    /// Why the funnel is poisoned, where it is.
    pub fn poison_detail(&self) -> (r: Option<String>)
        ensures
            opt_view(r) == self@.gate,
    {
        self.gate.clone()
    }

    /// Poisons the funnel: every later submission is unavailable.
    pub fn poison(&mut self, detail: String)
        ensures
            final(self)@ == (FunnelView { gate: Some(detail@), ..old(self)@ }),
    {
        self.gate = Some(detail);
    }

    /// The `k`-th identifier from here, counted from 1.
    pub fn id_after(&self, k: u64) -> (r: Uuid7)
        requires
            self@.mint_seq + k <= u64::MAX,
        ensures
            r@ == fresh(self@, k as int),
    {
        let epoch: u128 = self.store.authority_epoch().0 as u128;
        let seq: u128 = (self.mint_seq + k) as u128;
        Uuid7::mint(self.clock_ms, epoch * 0x1_0000_0000_0000_0000u128 + seq)
    }
}

/// Two lifetimes, with epochs that fit the 12 bits they ride in, never mint one identifier,
/// whatever the clock and the counters.
pub proof fn lifetimes_mint_apart(
    clock_a: u64,
    clock_b: u64,
    epoch_a: u64,
    epoch_b: u64,
    seq_a: u64,
    seq_b: u64,
)
    requires
        epoch_a != epoch_b,
        epoch_a < 0x1000,
        epoch_b < 0x1000,
    ensures
        minted(clock_a, (epoch_a * 0x1_0000_0000_0000_0000 + seq_a) as u128) != minted(
            clock_b,
            (epoch_b * 0x1_0000_0000_0000_0000 + seq_b) as u128,
        ),
{
    mint_parts(clock_a, epoch_a, seq_a);
    mint_parts(clock_b, epoch_b, seq_b);
}

proof fn mint_parts(clock: u64, epoch: u64, seq: u64)
    requires
        epoch < 0x1000,
    ensures
        (minted(clock, (epoch * 0x1_0000_0000_0000_0000 + seq) as u128) / 0x1_0000_0000_0000_0000)
            % 0x1000 == epoch,
{
    let e = epoch * 0x1_0000_0000_0000_0000 + seq;
    assert(e as u128 == e);
    assert(e / 0x1_0000_0000_0000_0000 == epoch) by (nonlinear_arith)
        requires
            e == epoch * 0x1_0000_0000_0000_0000 + seq,
            0 <= seq < 0x1_0000_0000_0000_0000,
    ;
    let t = clock as int % 0x1_0000_0000_0000;
    let b = e % 0x4000_0000_0000_0000;
    let v = minted(clock, e as u128);
    let hi = (t * 16 + 7) * 0x1000 + epoch;
    assert(v == hi * 0x1_0000_0000_0000_0000 + (0x8000_0000_0000_0000 + b));
    assert(v / 0x1_0000_0000_0000_0000 == hi) by (nonlinear_arith)
        requires
            v == hi * 0x1_0000_0000_0000_0000 + (0x8000_0000_0000_0000 + b),
            0 <= b < 0x4000_0000_0000_0000,
    ;
}

/// One lifetime never mints an identifier twice, as long as its count fits the 62 bits that it rides in:
/// two of its identifiers that are one were minted at one count.
pub proof fn one_lifetime_mints_apart(f: FunnelView, g: FunnelView, j: int, k: int)
    requires
        f.store.epoch == g.store.epoch,
        f.store.epoch.0 < 0x1000,
        0 <= f.mint_seq + j < 0x4000_0000_0000_0000,
        0 <= g.mint_seq + k < 0x4000_0000_0000_0000,
        fresh(f, j) == fresh(g, k),
    ensures
        f.mint_seq + j == g.mint_seq + k,
{
    count_rides_low(f.clock_ms, f.store.epoch.0, (f.mint_seq + j) as u64);
    count_rides_low(g.clock_ms, g.store.epoch.0, (g.mint_seq + k) as u64);
}

proof fn count_rides_low(clock: u64, epoch: u64, seq: u64)
    requires
        epoch < 0x1000,
        seq < 0x4000_0000_0000_0000,
    ensures
        id_value(clock, epoch, seq) as int % 0x4000_0000_0000_0000 == seq,
{
    let e = epoch * 0x1_0000_0000_0000_0000 + seq;
    assert(e as u128 == e);
    assert(e % 0x4000_0000_0000_0000 == seq) by (nonlinear_arith)
        requires
            e == epoch * 4 * 0x4000_0000_0000_0000 + seq,
            0 <= seq < 0x4000_0000_0000_0000,
    ;
    let t = clock as int % 0x1_0000_0000_0000;
    let a = (e / 0x1_0000_0000_0000_0000) % 0x1000;
    let v = minted(clock, e as u128);
    let hi = t * 0x4_0000 + 0x1_c000 + a * 4 + 2;
    assert(v == hi * 0x4000_0000_0000_0000 + seq);
    assert(v % 0x4000_0000_0000_0000 == seq) by (nonlinear_arith)
        requires
            v == hi * 0x4000_0000_0000_0000 + seq,
            0 <= seq < 0x4000_0000_0000_0000,
    ;
    assert(0 <= v < 0x1_0000_0000_0000_0000 * 0x1_0000_0000_0000_0000);
}

} // verus!
