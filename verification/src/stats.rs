//! Request statistics: three monotonic counters, a bounded latency sample
//! (the most recent 1000 observations), and a six-slot hourly ring.
//!
//! Ratios in the snapshot are reported as exact integers — per-mille for the
//! success rate and the request rate, floored milliseconds for the mean —
//! so every figure is pinned by its formula.

use vstd::prelude::*;
use vstd::relations::*;
use vstd::seq_lib::*;

verus! {

/// The latency sample holds at most this many observations.
pub open spec fn latency_capacity() -> int {
    1000
}

/// The hourly ring has six slots.
pub open spec fn hourly_slots() -> int {
    6
}

/// Mathematical state of the tracker.
#[verifier::ext_equal]
pub struct StatsModel {
    pub total: int,
    pub ok: int,
    pub err: int,
    pub latencies: Seq<u64>,
    pub hourly: Seq<u64>,
    pub last_slot: int,
}

#[derive(Debug)]
pub struct StatsTracker {
    pub requests_total: u64,
    pub requests_ok: u64,
    pub requests_err: u64,
    pub latencies: Vec<u64>,
    pub hourly_counts: Vec<u64>,
    pub last_hour_slot: usize,
}

impl View for StatsTracker {
    type V = StatsModel;

    open spec fn view(&self) -> StatsModel {
        StatsModel {
            total: self.requests_total as int,
            ok: self.requests_ok as int,
            err: self.requests_err as int,
            latencies: self.latencies@,
            hourly: self.hourly_counts@,
            last_slot: self.last_hour_slot as int,
        }
    }
}

pub open spec fn stats_model_wf(m: StatsModel) -> bool {
    &&& m.ok + m.err == m.total
    &&& m.latencies.len() <= latency_capacity()
    &&& m.hourly.len() == hourly_slots()
    &&& 0 <= m.last_slot < hourly_slots()
}

impl StatsTracker {
    pub open spec fn wf(&self) -> bool {
        stats_model_wf(self@)
    }
}

/// Slot addressed at `elapsed_secs` since the tracker was created.
pub open spec fn spec_hour_slot(elapsed_secs: u64) -> int {
    (elapsed_secs as int / 3600) % 6
}

/// The sample ring: append, evicting the oldest when full.
pub open spec fn spec_push_latency(l: Seq<u64>, latency_ms: u64) -> Seq<u64> {
    if l.len() >= latency_capacity() {
        l.skip(1).push(latency_ms)
    } else {
        l.push(latency_ms)
    }
}

pub open spec fn inc_sat(v: u64) -> u64 {
    if v == u64::MAX {
        v
    } else {
        (v + 1) as u64
    }
}

/// The hourly ring: a slot is zeroed when first entered, then incremented.
pub open spec fn spec_update_hourly(h: Seq<u64>, last_slot: int, slot: int) -> Seq<u64> {
    let h1 = if slot != last_slot {
        h.update(slot, 0u64)
    } else {
        h
    };
    h1.update(slot, inc_sat(h1[slot]))
}

/// One recording, as a function on the model.
pub open spec fn spec_record(
    m: StatsModel,
    success: bool,
    latency_ms: u64,
    elapsed_secs: u64,
) -> StatsModel {
    StatsModel {
        total: m.total + 1,
        ok: m.ok + if success {
            1int
        } else {
            0int
        },
        err: m.err + if success {
            0int
        } else {
            1int
        },
        latencies: spec_push_latency(m.latencies, latency_ms),
        hourly: spec_update_hourly(m.hourly, m.last_slot, spec_hour_slot(elapsed_secs)),
        last_slot: spec_hour_slot(elapsed_secs),
    }
}

/// A whole run of recordings, oldest first.
pub open spec fn spec_record_all(m: StatsModel, events: Seq<(bool, u64, u64)>) -> StatsModel
    decreases events.len(),
{
    if events.len() == 0 {
        m
    } else {
        let e = events.last();
        spec_record(spec_record_all(m, events.drop_last()), e.0, e.1, e.2)
    }
}

/// Counters never decrease across any run of recordings; two snapshots taken
/// in sequence therefore report non-decreasing `total`, `ok` and `err`.
pub proof fn lemma_counters_monotonic(m: StatsModel, events: Seq<(bool, u64, u64)>)
    ensures
        spec_record_all(m, events).total >= m.total,
        spec_record_all(m, events).ok >= m.ok,
        spec_record_all(m, events).err >= m.err,
    decreases events.len(),
{
    if events.len() > 0 {
        lemma_counters_monotonic(m, events.drop_last());
    }
}

pub open spec fn latency_leq() -> spec_fn(u64, u64) -> bool {
    |a: u64, b: u64| a <= b
}

/// The latency sample in ascending order.
pub open spec fn sorted_latencies(s: Seq<u64>) -> Seq<u64> {
    s.sort_by(latency_leq())
}

/// Index read for the 95th percentile, clamped to the last element.
pub open spec fn p95_index(n: int) -> int {
    let i = n * 95 / 100;
    if i > n - 1 {
        n - 1
    } else {
        i
    }
}

pub open spec fn seq_sum(s: Seq<u64>) -> int
    decreases s.len(),
{
    if s.len() == 0 {
        0
    } else {
        seq_sum(s.drop_last()) + s.last()
    }
}

proof fn lemma_latency_leq_total()
    ensures
        total_ordering(latency_leq()),
{
    let leq = latency_leq();
    assert(reflexive(leq));
    assert(antisymmetric(leq));
    assert(transitive(leq));
    assert(strongly_connected(leq));
}

proof fn lemma_seq_sum_bound(s: Seq<u64>)
    ensures
        0 <= seq_sum(s) <= s.len() * u64::MAX,
    decreases s.len(),
{
    if s.len() == 0 {
    } else {
        lemma_seq_sum_bound(s.drop_last());
        assert((s.len() - 1) * u64::MAX + u64::MAX == s.len() * u64::MAX) by (nonlinear_arith);
    }
}

/// An ascending copy of `v`, by insertion into place.
fn sorted_copy(v: &Vec<u64>) -> (r: Vec<u64>)
    ensures
        r@ == sorted_latencies(v@),
        r@.len() == v@.len(),
{
    broadcast use vstd::seq_lib::group_to_multiset_ensures;

    let n = v.len();
    let mut out: Vec<u64> = Vec::new();
    let mut i: usize = 0;
    proof {
        assert(v@.take(0) =~= Seq::<u64>::empty());
        assert(out@.to_multiset() =~= v@.take(0).to_multiset());
    }
    while i < n
        invariant
            n == v@.len(),
            0 <= i <= n,
            sorted_by(out@, latency_leq()),
            out@.to_multiset() == v@.take(i as int).to_multiset(),
            out@.len() == i,
        decreases n - i,
    {
        let x = v[i];
        let mut k: usize = 0;
        while k < out.len() && out[k] <= x
            invariant
                0 <= k <= out@.len(),
                forall|j: int| 0 <= j < k ==> out@[j] <= x,
            decreases out@.len() - k,
        {
            k += 1;
        }
        let ghost pre = out@;
        out.insert(k, x);
        proof {
            assert(out@ == pre.insert(k as int, x));
            assert forall|p: int, q: int| 0 <= p < q < out@.len() implies latency_leq()(
                out@[p],
                out@[q],
            ) by {
                if q < k {
                    assert(out@[p] == pre[p] && out@[q] == pre[q]);
                } else if q == k {
                    assert(out@[q] == x);
                    assert(out@[p] == pre[p] && pre[p] <= x);
                } else {
                    assert(out@[q] == pre[q - 1]);
                    if p < k {
                        assert(out@[p] == pre[p]);
                        if q - 1 < k {
                            assert(pre[p] <= x);
                        }
                        if q - 1 >= k {
                            assert(!(pre[k as int] <= x) ==> x < pre[k as int]);
                        }
                    } else if p == k {
                        assert(out@[p] == x);
                        assert(!(pre[k as int] <= x));
                        assert(sorted_by(pre, latency_leq()));
                        if k as int <= q - 1 {
                            if k as int == q - 1 {
                                assert(x <= pre[q - 1]);
                            } else {
                                assert(latency_leq()(pre[k as int], pre[q - 1]));
                                assert(x <= pre[q - 1]);
                            }
                        }
                    } else {
                        assert(out@[p] == pre[p - 1]);
                    }
                }
            }
            vstd::seq_lib::to_multiset_insert(pre, k as int, x);
            assert(v@.take(i + 1) =~= v@.take(i as int).push(v@[i as int]));
            vstd::seq_lib::to_multiset_build(v@.take(i as int), v@[i as int]);
            assert(v@.take(i + 1).to_multiset() == v@.take(i as int).to_multiset().insert(
                v@[i as int],
            ));
        }
        i += 1;
    }
    proof {
        assert(v@.take(n as int) =~= v@);
        lemma_latency_leq_total();
        v@.lemma_sort_by_ensures(latency_leq());
        lemma_sorted_unique(out@, v@.sort_by(latency_leq()), latency_leq());
        assert(out@ == sorted_latencies(v@));
        assert(out@.to_multiset().len() == v@.to_multiset().len());
        broadcast use vstd::seq_lib::group_to_multiset_ensures;

        assert(out@.len() == v@.len());
    }
    out
}

/// One report of the tracker's figures, all integers.
///
/// `success_rate_permille` is `ok * 1000 / total` (0 when idle);
/// `latency_ms_avg` the floored mean of the sample; `latency_ms_p95` the
/// sample value at the 95th-percentile index; `rps_milli` thousandths of
/// requests per second, from the start-to-now rate for the first minute and
/// from the current hourly bucket — slot `(elapsed / 3600) mod 6` —
/// afterwards.
#[derive(Debug)]
pub struct StatsSnapshot {
    pub requests_total: u64,
    pub requests_ok: u64,
    pub requests_err: u64,
    pub success_rate_permille: u64,
    pub latency_ms_avg: u64,
    pub latency_ms_p95: u64,
    pub rps_milli: u64,
    pub hourly_counts: Vec<u64>,
}

pub open spec fn spec_rps_milli(total: u64, current_bucket: u64, elapsed_secs: u64) -> int {
    let e = if elapsed_secs == 0 {
        1int
    } else {
        elapsed_secs as int
    };
    if e <= 60 {
        total as int * 1000 / e
    } else {
        current_bucket as int * 1000 / 3600
    }
}

pub open spec fn clamp_u64(v: int) -> int {
    if v > u64::MAX as int {
        u64::MAX as int
    } else {
        v
    }
}

impl Default for StatsTracker {
    fn default() -> (r: Self)
        ensures
            r.wf(),
            r@.total == 0,
            r@.ok == 0,
            r@.err == 0,
    {
        StatsTracker::new()
    }
}

impl StatsTracker {
    pub fn new() -> (r: StatsTracker)
        ensures
            r.wf(),
            r@.total == 0,
            r@.ok == 0,
            r@.err == 0,
            r@.latencies =~= Seq::<u64>::empty(),
            r@.hourly =~= seq![0u64, 0u64, 0u64, 0u64, 0u64, 0u64],
            r@.last_slot == 0,
    {
        let mut hourly: Vec<u64> = Vec::new();
        let mut i: usize = 0;
        while i < 6
            invariant
                0 <= i <= 6,
                hourly@.len() == i,
                forall|j: int| 0 <= j < i ==> hourly@[j] == 0u64,
            decreases 6 - i,
        {
            hourly.push(0);
            i += 1;
        }
        let r = StatsTracker {
            requests_total: 0,
            requests_ok: 0,
            requests_err: 0,
            latencies: Vec::new(),
            hourly_counts: hourly,
            last_hour_slot: 0,
        };
        assert(r@.hourly =~= seq![0u64, 0u64, 0u64, 0u64, 0u64, 0u64]);
        r
    }

    /// Records one finished request: bumps the counters, appends the latency
    /// (evicting the oldest of 1000), and advances the hourly ring.
    pub fn record_request(&mut self, success: bool, latency_ms: u64, elapsed_secs: u64)
        requires
            old(self).wf(),
            old(self).requests_total < u64::MAX,
        ensures
            final(self).wf(),
            final(self)@ =~= spec_record(old(self)@, success, latency_ms, elapsed_secs),
    {
        self.requests_total = self.requests_total + 1;
        if success {
            self.requests_ok = self.requests_ok + 1;
        } else {
            self.requests_err = self.requests_err + 1;
        }
        if self.latencies.len() >= 1000 {
            self.latencies.remove(0);
            proof {
                assert(old(self).latencies@.remove(0) =~= old(self).latencies@.skip(1));
            }
        }
        self.latencies.push(latency_ms);
        let slot = ((elapsed_secs / 3600) % 6) as usize;
        assert(slot as int == spec_hour_slot(elapsed_secs));
        if slot != self.last_hour_slot {
            self.hourly_counts[slot] = 0;
            self.last_hour_slot = slot;
        }
        let cur = self.hourly_counts[slot];
        self.hourly_counts[slot] = if cur == u64::MAX {
            cur
        } else {
            cur + 1
        };
        proof {
            assert(final(self)@.hourly =~= spec_update_hourly(
                old(self)@.hourly,
                old(self)@.last_slot,
                spec_hour_slot(elapsed_secs),
            ));
        }
    }

    /// The report. Every figure is fixed by the state and `elapsed_secs`.
    pub fn snapshot(&self, elapsed_secs: u64) -> (r: StatsSnapshot)
        requires
            self.wf(),
        ensures
            r.requests_total as int == self@.total,
            r.requests_ok as int == self@.ok,
            r.requests_err as int == self@.err,
            r.success_rate_permille as int == (if self@.total == 0 {
                0int
            } else {
                self@.ok * 1000 / self@.total
            }),
            r.latency_ms_avg as int == (if self@.latencies.len() == 0 {
                0int
            } else {
                seq_sum(self@.latencies) / self@.latencies.len() as int
            }),
            self@.latencies.len() == 0 ==> r.latency_ms_p95 == 0,
            self@.latencies.len() > 0 ==> r.latency_ms_p95 == sorted_latencies(self@.latencies)[
                p95_index(self@.latencies.len() as int)],
            r.rps_milli as int == clamp_u64(
                spec_rps_milli(
                    self.requests_total,
                    self@.hourly[spec_hour_slot(elapsed_secs)],
                    elapsed_secs,
                ),
            ),
            r.hourly_counts@ == self@.hourly,
    {
        let total = self.requests_total;
        let ok = self.requests_ok;
        let err = self.requests_err;
        let rate: u64 = if total == 0 {
            0
        } else {
            assert(ok <= total);
            let v: u128 = (ok as u128) * 1000 / (total as u128);
            assert(ok as int * 1000 / total as int <= 1000) by (nonlinear_arith)
                requires
                    0 < total,
                    0 <= ok <= total,
            ;
            v as u64
        };
        let len = self.latencies.len();
        let avg: u64 = if len == 0 {
            0
        } else {
            let mut acc: u128 = 0;
            let mut i: usize = 0;
            proof {
                assert(self.latencies@.take(0) =~= Seq::<u64>::empty());
            }
            while i < len
                invariant
                    len == self.latencies@.len() <= 1000,
                    0 <= i <= len,
                    acc == seq_sum(self.latencies@.take(i as int)),
                    0 <= acc <= i * (u64::MAX as int),
                decreases len - i,
            {
                proof {
                    lemma_seq_sum_bound(self.latencies@.take(i as int));
                    assert(self.latencies@.take(i + 1).drop_last() =~= self.latencies@.take(
                        i as int,
                    ));
                    assert((i + 1) * (u64::MAX as int) == i * (u64::MAX as int) + u64::MAX)
                        by (nonlinear_arith);
                }
                acc = acc + (self.latencies[i] as u128);
                i += 1;
            }
            proof {
                assert(self.latencies@.take(len as int) =~= self.latencies@);
                lemma_seq_sum_bound(self.latencies@);
                assert(seq_sum(self.latencies@) / len as int <= u64::MAX as int)
                    by (nonlinear_arith)
                    requires
                        0 < len,
                        0 <= seq_sum(self.latencies@) <= len * (u64::MAX as int),
                ;
            }
            let a: u128 = acc / (len as u128);
            a as u64
        };
        let p95: u64 = if len == 0 {
            0
        } else {
            let s = sorted_copy(&self.latencies);
            let idx0 = len * 95 / 100;
            let idx = if idx0 > len - 1 {
                len - 1
            } else {
                idx0
            };
            assert(idx as int == p95_index(len as int));
            s[idx]
        };
        let e: u64 = if elapsed_secs == 0 {
            1
        } else {
            elapsed_secs
        };
        let rps_milli: u64 = if e <= 60 {
            let v: u128 = (total as u128) * 1000 / (e as u128);
            if v > (u64::MAX as u128) {
                u64::MAX
            } else {
                v as u64
            }
        } else {
            let slot = ((elapsed_secs / 3600) % 6) as usize;
            assert(slot as int == spec_hour_slot(elapsed_secs));
            let h0 = self.hourly_counts[slot];
            let v: u128 = (h0 as u128) * 1000 / 3600;
            assert(h0 as int * 1000 / 3600 <= u64::MAX as int) by (nonlinear_arith)
                requires
                    0 <= h0 <= u64::MAX as int,
            ;
            v as u64
        };
        let mut hourly: Vec<u64> = Vec::new();
        let mut i: usize = 0;
        proof {
            assert(self.hourly_counts@.take(0) =~= Seq::<u64>::empty());
        }
        while i < self.hourly_counts.len()
            invariant
                0 <= i <= self.hourly_counts@.len(),
                hourly@ == self.hourly_counts@.take(i as int),
            decreases self.hourly_counts@.len() - i,
        {
            hourly.push(self.hourly_counts[i]);
            proof {
                assert(self.hourly_counts@.take(i + 1) =~= self.hourly_counts@.take(
                    i as int,
                ).push(self.hourly_counts@[i as int]));
            }
            i += 1;
        }
        proof {
            assert(self.hourly_counts@.take(self.hourly_counts@.len() as int)
                =~= self.hourly_counts@);
        }
        StatsSnapshot {
            requests_total: total,
            requests_ok: ok,
            requests_err: err,
            success_rate_permille: rate,
            latency_ms_avg: avg,
            latency_ms_p95: p95,
            rps_milli: rps_milli,
            hourly_counts: hourly,
        }
    }
}

} // verus!
