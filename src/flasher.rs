use vstd::prelude::*;

use vstd::arithmetic::mul::lemma_mul_is_distributive_add;

use crate::morse::MorseCode;

verus! {

/// How the next symbol reached the flasher.
#[derive(Clone, Copy, Debug, PartialEq, Eq, Structural)]
pub enum Arrival {
    /// The symbol was already waiting in the queue: the stream is continuous.
    Waiting(MorseCode),
    /// The queue was empty; the symbol came in at the given time, after the
    /// flasher had waited for it.
    AfterIdle(MorseCode, u64),
}

/// What the flasher does for one symbol: raise the pin if `high`, lower it at
/// the absolute time `off_at`, then stay low until the absolute time `next_at`.
#[derive(Clone, Copy, Debug, PartialEq, Eq, Structural)]
pub struct Step {
    pub high: bool,
    pub off_at: u64,
    pub next_at: u64,
}

/// The timing engine: a cursor holding the absolute deadline that the last
/// symbol ended at, and the length of one time unit, both in clock ticks.
#[derive(Clone, Copy, Debug, PartialEq, Eq, Structural)]
pub struct Flasher {
    pub now: u64,
    pub unit: u64,
}

/// The symbol carried by an arrival.
pub open spec fn code_of(a: Arrival) -> MorseCode {
    match a {
        Arrival::Waiting(c) => c,
        Arrival::AfterIdle(c, _) => c,
    }
}

/// Dots and dashes light the pin; `Space` and `EndOfChar` are gaps only.
pub open spec fn lights(c: MorseCode) -> bool {
    c == MorseCode::Dot || c == MorseCode::Dash
}

/// Units from the start of a symbol until the pin goes low: three for a
/// `Dash` or a `Space`, one otherwise.
pub open spec fn on_units(c: MorseCode) -> nat {
    if c == MorseCode::Dash || c == MorseCode::Space {
        3
    } else {
        1
    }
}

/// Units a symbol takes in all: its on part and the one-unit gap after it.
pub open spec fn symbol_units(c: MorseCode) -> nat {
    on_units(c) + 1
}

/// Where timing for an arrival starts: the cursor when the symbol was already
/// waiting, the moment it came in after an idle wait.
pub open spec fn start_of(now: int, a: Arrival) -> int {
    match a {
        Arrival::Waiting(_) => now,
        Arrival::AfterIdle(_, t) => t as int,
    }
}

/// The absolute time at which the pin goes low for an arrival.
pub open spec fn off_deadline(now: int, unit: int, a: Arrival) -> int {
    start_of(now, a) + unit * on_units(code_of(a))
}

/// The absolute time at which the next symbol may start.
pub open spec fn next_deadline(now: int, unit: int, a: Arrival) -> int {
    off_deadline(now, unit, a) + unit
}

/// The cursor after a run of arrivals, one step each.
pub open spec fn cursor_after(now: int, unit: int, arrivals: Seq<Arrival>) -> int
    decreases arrivals.len(),
{
    if arrivals.len() == 0 {
        now
    } else {
        next_deadline(cursor_after(now, unit, arrivals.drop_last()), unit, arrivals.last())
    }
}

/// The units a run of symbols takes in all.
pub open spec fn total_units(codes: Seq<MorseCode>) -> nat
    decreases codes.len(),
{
    if codes.len() == 0 {
        0
    } else {
        total_units(codes.drop_last()) + symbol_units(codes.last())
    }
}

/// Every symbol of the run was already waiting when the flasher asked.
pub open spec fn all_waiting(arrivals: Seq<Arrival>) -> bool {
    forall|i: int| 0 <= i < arrivals.len() ==> arrivals[i] is Waiting
}

/// The symbols of a run of arrivals.
pub open spec fn codes_of(arrivals: Seq<Arrival>) -> Seq<MorseCode> {
    arrivals.map_values(|a: Arrival| code_of(a))
}

impl Flasher {
    /// A flasher whose cursor starts at `start`, with time units of `unit` ticks.
    pub fn new(start: u64, unit: u64) -> (r: Flasher)
        ensures
            r.now == start,
            r.unit == unit,
    {
        Flasher { now: start, unit }
    }

    /// Whether the deadlines for `a` fit in the clock's range.
    pub open spec fn fits(&self, a: Arrival) -> bool {
        next_deadline(self.now as int, self.unit as int, a) <= u64::MAX
    }

    /// Whether the deadlines for `a` fit in the clock's range, so that
    /// `step` may be called with it.
    pub fn can_step(&self, a: Arrival) -> (r: bool)
        ensures
            r == self.fits(a),
    {
        let (code, start) = match a {
            Arrival::Waiting(c) => (c, self.now),
            Arrival::AfterIdle(c, t) => (c, t),
        };
        let units: u128 = match code {
            MorseCode::Dash | MorseCode::Space => 4,
            _ => 2,
        };
        let end: u128 = start as u128 + self.unit as u128 * units;
        proof {
            let u = self.unit as int;
            assert(u * on_units(code) + u == u * units) by (nonlinear_arith)
                requires
                    on_units(code) + 1 == units,
            ;
        }
        end <= u64::MAX as u128
    }

    /// Plans one symbol and moves the cursor to the end of it.
    ///
    /// A waiting symbol is timed from the cursor, so a continuous stream
    /// keeps exact deadlines however late the flasher wakes; a symbol that
    /// came after an idle wait is timed from the moment it came in.
    pub fn step(&mut self, a: Arrival) -> (r: Step)
        requires
            old(self).fits(a),
        ensures
            r.high == lights(code_of(a)),
            r.off_at == off_deadline(old(self).now as int, old(self).unit as int, a),
            r.next_at == next_deadline(old(self).now as int, old(self).unit as int, a),
            final(self).now == r.next_at,
            final(self).unit == old(self).unit,
    {
        let (code, start) = match a {
            Arrival::Waiting(c) => (c, self.now),
            Arrival::AfterIdle(c, t) => (c, t),
        };
        let high = match code {
            MorseCode::Dot | MorseCode::Dash => true,
            _ => false,
        };
        let on = match code {
            MorseCode::Dash | MorseCode::Space => {
                assert(self.unit * on_units(code) == self.unit * 3);
                self.unit * 3
            },
            _ => {
                assert(self.unit * on_units(code) == self.unit * 1);
                self.unit
            },
        };
        assert(start + on + self.unit == next_deadline(self.now as int, self.unit as int, a));
        let off_at = start + on;
        let next_at = off_at + self.unit;
        self.now = next_at;
        Step { high, off_at, next_at }
    }
}

/// No drift: over a run of symbols that were each already waiting, the cursor
/// advances by exactly the units of the symbols, whatever the actual wake-up
/// times were.
pub proof fn lemma_no_drift(now: int, unit: int, arrivals: Seq<Arrival>)
    requires
        all_waiting(arrivals),
    ensures
        cursor_after(now, unit, arrivals) == now + unit * total_units(codes_of(arrivals)),
    decreases arrivals.len(),
{
    if arrivals.len() == 0 {
        assert(codes_of(arrivals).len() == 0);
        assert(unit * 0 == 0);
    } else {
        let init = arrivals.drop_last();
        let last = arrivals.last();
        let t = total_units(codes_of(init)) as int;
        let on = on_units(code_of(last)) as int;
        assert(all_waiting(init));
        lemma_no_drift(now, unit, init);
        assert(codes_of(arrivals).drop_last() =~= codes_of(init));
        assert(codes_of(arrivals).last() == code_of(last));
        assert(total_units(codes_of(arrivals)) == t + (on + 1));
        lemma_mul_is_distributive_add(unit, t, on + 1);
        lemma_mul_is_distributive_add(unit, on, 1);
        assert(last is Waiting);
        assert(cursor_after(now, unit, arrivals) == cursor_after(now, unit, init) + unit * on + unit);
    }
}

/// After an idle wait the cursor is rebased: the deadlines of the symbol that
/// ends the wait depend on when it came in, not on any deadline from before.
pub proof fn lemma_idle_rebases(before1: int, before2: int, unit: int, c: MorseCode, t: u64)
    ensures
        off_deadline(before1, unit, Arrival::AfterIdle(c, t)) == t + unit * on_units(c),
        next_deadline(before1, unit, Arrival::AfterIdle(c, t)) == next_deadline(
            before2,
            unit,
            Arrival::AfterIdle(c, t),
        ),
{
}

} // verus!
