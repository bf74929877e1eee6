use vstd::prelude::*;
use crate::counters::ByteCounters;

verus! {

/// Receive and transmit rates over one sampling window, in bytes per second.
#[derive(Clone, Copy, Debug, PartialEq, Eq, Structural)]
pub struct RateSample {
    pub rx: u64,
    pub tx: u64,
}

/// Length in milliseconds of the window over which all interfaces are
/// sampled together.
pub const INTERVAL: u64 = 1000;

/// How far a counter advanced from `before` to `after`. A counter that went
/// back (the interface was reset or recreated) counts as not having moved.
pub open spec fn counter_delta(before: u64, after: u64) -> nat {
    if after >= before {
        (after - before) as nat
    } else {
        0
    }
}

/// The advance of a counter scaled to bytes per second over a window of
/// `interval_ms` milliseconds, truncated, and held at `u64::MAX` where it
/// does not fit.
pub open spec fn scaled_rate(before: u64, after: u64, interval_ms: u64) -> u64
    recommends
        interval_ms > 0,
{
    let r = counter_delta(before, after) * 1000 / (interval_ms as nat);
    if r > u64::MAX {
        u64::MAX
    } else {
        r as u64
    }
}

fn rate_of(before: u64, after: u64, interval_ms: u64) -> (r: u64)
    requires
        interval_ms > 0,
    ensures
        r == scaled_rate(before, after, interval_ms),
{
    let delta: u64 = if after >= before {
        after - before
    } else {
        0
    };
    assert(delta as u128 * 1000 <= u128::MAX) by (nonlinear_arith)
        requires
            delta <= u64::MAX,
    ;
    let r: u128 = (delta as u128) * 1000 / (interval_ms as u128);
    if r > u64::MAX as u128 {
        u64::MAX
    } else {
        r as u64
    }
}

/// The rates of an interface whose counters read `before` at the start of a
/// window of `interval_ms` milliseconds and `after` at its end.
pub fn get_net_speed(before: ByteCounters, after: ByteCounters, interval_ms: u64) -> (r:
    RateSample)
    requires
        interval_ms > 0,
    ensures
        r.rx == scaled_rate(before.rx, after.rx, interval_ms),
        r.tx == scaled_rate(before.tx, after.tx, interval_ms),
{
    RateSample {
        rx: rate_of(before.rx, after.rx, interval_ms),
        tx: rate_of(before.tx, after.tx, interval_ms),
    }
}

/// For counters that did not go back, the rate is the advance times 1000
/// divided by the window length, truncated, wherever that fits in 64 bits.
pub proof fn lemma_rate_exact(before: u64, after: u64, interval_ms: u64)
    requires
        interval_ms > 0,
        after >= before,
        (after - before) * 1000 / (interval_ms as int) <= u64::MAX,
    ensures
        scaled_rate(before, after, interval_ms) as int == (after - before) * 1000 / (
        interval_ms as int),
        scaled_rate(before, after, interval_ms) >= 0,
{
}

/// The per-second rates of an interface over a window of one second: the
/// advance of each counter.
pub open spec fn delta_sample(before: ByteCounters, after: ByteCounters) -> RateSample {
    RateSample {
        rx: counter_delta(before.rx, after.rx) as u64,
        tx: counter_delta(before.tx, after.tx) as u64,
    }
}

/// No traffic in either direction.
pub open spec fn is_idle(s: RateSample) -> bool {
    s.rx == 0 && s.tx == 0
}

/// An interface's name with its counters at the start and the end of a
/// window.
pub type CounterWindow = (String, ByteCounters, ByteCounters);

/// An interface's name with its rates.
pub type InterfaceRate = (String, RateSample);

/// The counter windows with each name as its characters.
pub open spec fn window_view(w: Seq<CounterWindow>) -> Seq<(Seq<char>, ByteCounters, ByteCounters)> {
    w.map_values(|e: CounterWindow| (e.0@, e.1, e.2))
}

/// The rates with each name as its characters.
pub open spec fn rates_view(r: Seq<InterfaceRate>) -> Seq<(Seq<char>, RateSample)> {
    r.map_values(|e: InterfaceRate| (e.0@, e.1))
}

/// The rates over a one-second window of the interfaces that had traffic,
/// in the order of `w`; idle interfaces are left out.
pub open spec fn active_rates_of(w: Seq<(Seq<char>, ByteCounters, ByteCounters)>) -> Seq<
    (Seq<char>, RateSample),
>
    decreases w.len(),
{
    if w.len() == 0 {
        Seq::empty()
    } else {
        let prev = active_rates_of(w.drop_last());
        let s = delta_sample(w.last().1, w.last().2);
        if is_idle(s) {
            prev
        } else {
            prev.push((w.last().0, s))
        }
    }
}

/// No interface without traffic appears among the active rates.
pub proof fn lemma_active_rates_not_idle(w: Seq<(Seq<char>, ByteCounters, ByteCounters)>)
    ensures
        forall|k: int|
            0 <= k < active_rates_of(w).len() ==> !is_idle(#[trigger] active_rates_of(w)[k].1),
    decreases w.len(),
{
    if w.len() > 0 {
        let prev = active_rates_of(w.drop_last());
        lemma_active_rates_not_idle(w.drop_last());
        assert forall|k: int|
            0 <= k < active_rates_of(w).len() implies !is_idle(
            #[trigger] active_rates_of(w)[k].1,
        ) by {
            if k < prev.len() {
                assert(active_rates_of(w)[k] == prev[k]);
            }
        }
    }
}

/// The rates over one second of the interfaces in `window` that had
/// traffic in either direction, in the order of `window`.
pub fn active_rates(window: &Vec<CounterWindow>) -> (r: Vec<InterfaceRate>)
    ensures
        rates_view(r@) == active_rates_of(window_view(window@)),
        forall|k: int| 0 <= k < r@.len() ==> !is_idle(#[trigger] r@[k].1),
{
    let mut r: Vec<InterfaceRate> = Vec::new();
    let mut i: usize = 0;
    while i < window.len()
        invariant
            i <= window@.len(),
            rates_view(r@) == active_rates_of(window_view(window@.subrange(0, i as int))),
        decreases window@.len() - i,
    {
        let before = window[i].1;
        let after = window[i].2;
        let rx: u64 = if after.rx >= before.rx {
            after.rx - before.rx
        } else {
            0
        };
        let tx: u64 = if after.tx >= before.tx {
            after.tx - before.tx
        } else {
            0
        };
        let ghost prefix = window_view(window@.subrange(0, i as int));
        let ghost next = window_view(window@.subrange(0, i + 1));
        assert(next.drop_last() =~= prefix);
        if rx != 0 || tx != 0 {
            let ghost old_r = r@;
            r.push((window[i].0.clone(), RateSample { rx, tx }));
            assert(rates_view(r@) =~= rates_view(old_r).push((next.last().0, delta_sample(next.last().1, next.last().2))));
        }
        i = i + 1;
    }
    assert(window@.subrange(0, i as int) =~= window@);
    proof {
        lemma_active_rates_not_idle(window_view(window@));
        assert forall|k: int| 0 <= k < r@.len() implies !is_idle(#[trigger] r@[k].1) by {
            assert(rates_view(r@)[k].1 == r@[k].1);
        }
    }
    r
}

} // verus!
