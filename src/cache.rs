//! The rendered payload, refreshed at most once per interval.
//!
//! Times are nanoseconds on a monotonic clock. A call within the interval of
//! the last refresh serves the stored text; the first call after it reads the
//! host again, turns counter movements into rates and stores the new text.
use crate::metrics::{format_data, rates_spec, render, zero_rates, Rates, Sample};
use crate::probe::{disk_counters, net_counters, sums_of, Probe};
use vstd::prelude::*;

verus! {

/// Nanoseconds in a second.
pub const NANOS_PER_SEC: u64 = 1_000_000_000;

/// Time from `since` to `now`; a clock reading behind `since` counts as none.
pub open spec fn elapsed(now: u64, since: u64) -> u64 {
    if now >= since {
        (now - since) as u64
    } else {
        0
    }
}

/// What a `RateCache` holds.
pub struct CacheView {
    pub last: Sample,
    pub last_refresh: u64,
    pub text: Seq<char>,
    pub interval_secs: u64,
}

/// The stored text is the rendering of the stored reading with some rates.
pub open spec fn wf(c: CacheView) -> bool {
    exists|r: Rates| c.text == #[trigger] render(c.last, r)
}

/// `p` holds the counters that `s` reports.
pub open spec fn counters_from(p: Probe, s: Sample) -> bool {
    &&& sums_of(net_counters(p.networks_spec()), (s.net_rx, s.net_tx))
    &&& sums_of(disk_counters(p.disks_spec()), (s.disk_read, s.disk_write))
}

/// Whether a call at `now` reads the host again: a whole interval has
/// passed since the last refresh.
pub open spec fn stale(c: CacheView, now: u64) -> bool {
    elapsed(now, c.last_refresh) as int >= c.interval_secs as int * NANOS_PER_SEC as int
}

/// A call at `now`: the state after it and the text it returns. `fresh` is
/// what the host reads if the call reads it at all.
pub open spec fn step(c: CacheView, now: u64, fresh: Sample) -> (CacheView, Seq<char>) {
    if stale(c, now) {
        let text = render(fresh, rates_spec(c.last, fresh, elapsed(now, c.last_refresh)));
        (CacheView { last: fresh, last_refresh: now, text, interval_secs: c.interval_secs }, text)
    } else {
        (c, c.text)
    }
}

/// A run of calls at `times`, the i-th reading `fresh[i]` if it reads the
/// host: the final state, the texts returned, and how many calls read the host.
pub open spec fn run(c: CacheView, times: Seq<u64>, fresh: Seq<Sample>) -> (
    CacheView,
    Seq<Seq<char>>,
    nat,
)
    decreases times.len(),
{
    if times.len() == 0 || fresh.len() == 0 {
        (c, Seq::empty(), 0)
    } else {
        let (c1, text) = step(c, times[0], fresh[0]);
        let (cn, texts, reads) = run(c1, times.drop_first(), fresh.drop_first());
        (cn, seq![text] + texts, reads + if stale(c, times[0]) { 1nat } else { 0nat })
    }
}

/// The last reading, when it was taken, and the text rendered from it.
pub struct RateCache {
    last: Sample,
    last_refresh: u64,
    text: String,
    interval_secs: u64,
}

impl View for RateCache {
    type V = CacheView;

    closed spec fn view(&self) -> CacheView {
        CacheView {
            last: self.last,
            last_refresh: self.last_refresh,
            text: self.text@,
            interval_secs: self.interval_secs,
        }
    }
}

impl RateCache {
    /// A cache holding the first reading `first`, taken at `now`, rendered
    /// with every rate at zero.
    pub fn new(interval_secs: u64, first: Sample, now: u64) -> (c: RateCache)
        ensures
            c@.last == first,
            c@.last_refresh == now,
            c@.text == render(first, zero_rates()),
            c@.interval_secs == interval_secs,
            wf(c@),
    {
        let text = format_data(&first, &Rates::zero());
        assert(text@ == render(first, zero_rates()));
        RateCache { last: first, last_refresh: now, text, interval_secs }
    }

    /// Whether a call at `now` reads the host again.
    pub fn is_stale(&self, now: u64) -> (r: bool)
        ensures
            r == stale(self@, now),
    {
        let e = now.saturating_sub(self.last_refresh);
        e as u128 >= self.interval_secs as u128 * NANOS_PER_SEC as u128
    }

    /// The text stored by the last refresh.
    pub fn text(&self) -> (r: String)
        ensures
            r@ == self@.text,
    {
        self.text.clone()
    }

    /// The configured interval, in seconds.
    pub fn interval_secs(&self) -> (r: u64)
        ensures
            r == self@.interval_secs,
    {
        self.interval_secs
    }

    /// A call at `now` where the host, if read, gives `fresh`.
    pub fn get_data_with(&mut self, now: u64, fresh: Sample) -> (r: String)
        requires
            wf(old(self)@),
        ensures
            wf(final(self)@),
            (final(self)@, r@) == step(old(self)@, now, fresh),
    {
        if self.is_stale(now) {
            self.refresh_with(now, fresh)
        } else {
            self.text.clone()
        }
    }

    /// Stores `fresh`, read at `now`, with the rates since the last reading.
    fn refresh_with(&mut self, now: u64, fresh: Sample) -> (r: String)
        ensures
            final(self)@ == (CacheView {
                last: fresh,
                last_refresh: now,
                text: render(fresh, rates_spec(old(self)@.last, fresh, elapsed(now, old(self)@.last_refresh))),
                interval_secs: old(self)@.interval_secs,
            }),
            r@ == final(self)@.text,
            wf(final(self)@),
    {
        let e = now.saturating_sub(self.last_refresh);
        let rates = Rates::between(&self.last, &fresh, e);
        self.text = format_data(&fresh, &rates);
        assert(self.text@ == render(fresh, rates));
        self.last = fresh;
        self.last_refresh = now;
        assert(self@.text == render(self@.last, rates));
        self.text.clone()
    }

    /// A call at `now`: reads `probe` only when a whole interval has passed
    /// since the last refresh, and otherwise leaves it untouched.
    pub fn get_data(&mut self, now: u64, probe: &mut Probe) -> (r: String)
        requires
            wf(old(self)@),
        ensures
            wf(final(self)@),
            (final(self)@, r@) == step(old(self)@, now, final(self)@.last),
            exists|rates: Rates| r@ == #[trigger] render(final(self)@.last, rates),
            !stale(old(self)@, now) ==> *final(probe) == *old(probe),
            stale(old(self)@, now) ==> {
                &&& final(probe).read_count() == old(probe).read_count() + 1
                &&& counters_from(*final(probe), final(self)@.last)
            },
    {
        if self.is_stale(now) {
            let fresh = probe.read();
            self.refresh_with(now, fresh)
        } else {
            self.text.clone()
        }
    }
}

/// The host's figures together with the cache rendered from them.
pub struct AppState {
    probe: Probe,
    cache: RateCache,
}

impl View for AppState {
    type V = CacheView;

    closed spec fn view(&self) -> CacheView {
        self.cache@
    }
}

impl AppState {
    /// The host's figures as last loaded, with their read count.
    pub closed spec fn probe_spec(&self) -> Probe {
        self.probe
    }

    /// Takes the calibration reading from `probe`, which must have loaded its
    /// figures at least sysinfo's minimum CPU update interval earlier, at
    /// `now`, and renders it with every rate at zero.
    pub fn new(interval_secs: u64, probe: Probe, now: u64) -> (s: AppState)
        ensures
            s@.last_refresh == now,
            s@.text == render(s@.last, zero_rates()),
            s@.interval_secs == interval_secs,
            wf(s@),
            s.probe_spec().read_count() == probe.read_count() + 1,
            counters_from(s.probe_spec(), s@.last),
    {
        let mut probe = probe;
        let first = probe.read();
        let cache = RateCache::new(interval_secs, first, now);
        AppState { probe, cache }
    }

    /// A call at `now`, reading the host only when the cache is stale.
    pub fn get_data(&mut self, now: u64) -> (r: String)
        requires
            wf(old(self)@),
        ensures
            (final(self)@, r@) == step(old(self)@, now, final(self)@.last),
            wf(final(self)@),
            exists|rates: Rates| r@ == #[trigger] render(final(self)@.last, rates),
            !stale(old(self)@, now) ==> final(self).probe_spec() == old(self).probe_spec(),
            stale(old(self)@, now) ==> {
                &&& final(self).probe_spec().read_count() == old(self).probe_spec().read_count() + 1
                &&& counters_from(final(self).probe_spec(), final(self)@.last)
            },
    {
        self.cache.get_data(now, &mut self.probe)
    }
}

/// Calls that all fall within the interval of the last refresh return the
/// stored text, byte for byte, read nothing and change nothing.
pub proof fn lemma_fresh_calls_serve_cache(c: CacheView, times: Seq<u64>, fresh: Seq<Sample>)
    requires
        times.len() == fresh.len(),
        forall|i: int| 0 <= i < times.len() ==> !stale(c, #[trigger] times[i]),
    ensures
        run(c, times, fresh).0 == c,
        run(c, times, fresh).1 =~= Seq::new(times.len(), |i: int| c.text),
        run(c, times, fresh).2 == 0,
    decreases times.len(),
{
    if times.len() > 0 {
        assert(!stale(c, times[0]));
        let rest = times.drop_first();
        assert forall|i: int| 0 <= i < rest.len() implies !stale(c, #[trigger] rest[i]) by {
            assert(rest[i] == times[i + 1]);
        }
        lemma_fresh_calls_serve_cache(c, rest, fresh.drop_first());
    }
}

/// Of calls that arrive once the cache is stale, in the order the lock lets
/// them in and all within one interval of the first, only the first reads the
/// host, and every one of them returns the text of that single refresh.
pub proof fn lemma_one_refresh_per_window(c: CacheView, times: Seq<u64>, fresh: Seq<Sample>)
    requires
        c.interval_secs > 0,
        times.len() == fresh.len(),
        times.len() > 0,
        stale(c, times[0]),
        forall|i: int| 0 <= i < times.len() ==> times[0] <= #[trigger] times[i],
        forall|i: int|
            0 <= i < times.len() ==> (#[trigger] times[i] - times[0]) < c.interval_secs as int
                * NANOS_PER_SEC as int,
    ensures
        run(c, times, fresh).2 == 1,
        run(c, times, fresh).1 =~= Seq::new(times.len(), |i: int| step(c, times[0], fresh[0]).1),
        run(c, times, fresh).0 == step(c, times[0], fresh[0]).0,
{
    let (c1, text) = step(c, times[0], fresh[0]);
    let rest = times.drop_first();
    assert forall|i: int| 0 <= i < rest.len() implies !stale(c1, #[trigger] rest[i]) by {
        assert(rest[i] == times[i + 1]);
    }
    lemma_fresh_calls_serve_cache(c1, rest, fresh.drop_first());
}

} // verus!
