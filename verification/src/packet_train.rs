//! One stochastic ON/OFF traffic source: its state machine and rate budget.

use vstd::prelude::*;
use vstd::arithmetic::div_mod::{lemma_div_is_ordered, lemma_div_multiples_vanish};
use vstd::arithmetic::mul::{lemma_mul_inequality, lemma_mul_is_commutative};

verus! {

/// Fixed per-packet byte cost added to the rate ledger to model protocol
/// header overhead; it is accounted but never transmitted.
pub const PACKET_OVERHEAD_BYTES: u64 = 46;

/// Long-run duty-cycle-weighted mean rate of a train, in bytes per second:
/// the bandwidth-distribution mean scaled by the fraction of time the train
/// spends in the `ON` state. Durations are in microseconds; the result is 0
/// when both mean durations are 0 (a train that is never meaningfully on).
pub open spec fn mean_bandwidth_spec(on_mean: int, off_mean: int, bw_mean: int) -> int {
    if on_mean + off_mean == 0 {
        0
    } else {
        bw_mean * on_mean / (on_mean + off_mean)
    }
}

/// One ON/OFF traffic source. Times are microseconds on a caller-supplied
/// monotone clock; rates are bytes per second; sizes are bytes.
#[derive(Clone, Copy)]
pub struct PacketTrain {
    /// Mean of the active-period duration distribution, microseconds.
    pub on_mean_micros: u64,
    /// Closed-form mean of the idle-period duration distribution, microseconds.
    pub off_mean_micros: u64,
    /// Mean of the instantaneous-rate distribution, bytes per second.
    pub bandwith_mean: u64,
    /// Whether the train is in its active period.
    pub currently_on: bool,
    /// When the current period began.
    pub current_status_since: u64,
    /// When the current period is due for re-evaluation.
    pub current_status_until: u64,
    /// Rate sampled for the current active period; 0 while off.
    pub current_bandwith: u64,
    /// Bytes accounted (payload plus overhead) since the active period began.
    pub sum_of_data: u64,
}

impl PacketTrain {
    /// The state invariant: the period window is ordered, and an idle train
    /// has no rate budget.
    pub open spec fn wf(self) -> bool {
        &&& self.current_status_since <= self.current_status_until
        &&& (!self.currently_on ==> self.current_bandwith == 0)
    }

    /// The train's long-run mean rate, as `mean_bandwidth_spec` of its fields.
    pub open spec fn mean_bandwidth(self) -> int {
        mean_bandwidth_spec(
            self.on_mean_micros as int,
            self.off_mean_micros as int,
            self.bandwith_mean as int,
        )
    }

    /// A fresh train: idle, with both window bounds at `now`, so it is due
    /// for evaluation on the first scheduler pass.
    pub fn new(on_mean_micros: u64, off_mean_micros: u64, bandwith_mean: u64, now: u64) -> (t:
        PacketTrain)
        ensures
            t.wf(),
            t.on_mean_micros == on_mean_micros,
            t.off_mean_micros == off_mean_micros,
            t.bandwith_mean == bandwith_mean,
            !t.currently_on,
            t.current_status_since == now,
            t.current_status_until == now,
            t.current_bandwith == 0,
            t.sum_of_data == 0,
    {
        PacketTrain {
            on_mean_micros,
            off_mean_micros,
            bandwith_mean,
            currently_on: false,
            current_status_since: now,
            current_status_until: now,
            current_bandwith: 0,
            sum_of_data: 0,
        }
    }

    /// Whether the current period has expired and the train must flip.
    pub fn is_due(&self, now: u64) -> (r: bool)
        ensures
            r == (now > self.current_status_until),
    {
        now > self.current_status_until
    }

    /// Transition between the two states. The caller samples one duration
    /// from each duration distribution and one rate from the bandwidth
    /// distribution and passes them in (durations in microseconds, rate in
    /// bytes per second); the transition picks whichever the new state needs.
    ///
    /// Into `ON`: the window becomes `[now, now + on duration]`, the sampled
    /// rate becomes the window's budget, and the byte ledger restarts at 0.
    /// Into `OFF`: the window end moves to `now + off duration`, the window
    /// start stays (the idle period is measured from the end of the active
    /// one in the ledger's terms), and the rate budget drops to 0.
    pub fn flip_status(
        &mut self,
        now: u64,
        sampled_on_duration_micros: u64,
        sampled_off_duration_micros: u64,
        sampled_bandwidth: u64,
    )
        requires
            old(self).wf(),
            old(self).currently_on ==> now >= old(self).current_status_since,
            now + sampled_on_duration_micros <= u64::MAX,
            now + sampled_off_duration_micros <= u64::MAX,
        ensures
            final(self).wf(),
            final(self).currently_on == !old(self).currently_on,
            final(self).on_mean_micros == old(self).on_mean_micros,
            final(self).off_mean_micros == old(self).off_mean_micros,
            final(self).bandwith_mean == old(self).bandwith_mean,
            final(self).currently_on ==> {
                &&& final(self).current_status_since == now
                &&& final(self).current_status_until == now + sampled_on_duration_micros
                &&& final(self).current_bandwith == sampled_bandwidth
                &&& final(self).sum_of_data == 0
            },
            !final(self).currently_on ==> {
                &&& final(self).current_status_since == old(self).current_status_since
                &&& final(self).current_status_until == now + sampled_off_duration_micros
                &&& final(self).current_bandwith == 0
                &&& final(self).sum_of_data == old(self).sum_of_data
            },
    {
        self.currently_on = !self.currently_on;
        if self.currently_on {
            self.current_status_since = now;
            self.current_status_until = now + sampled_on_duration_micros;
            self.current_bandwith = sampled_bandwidth;
            self.sum_of_data = 0;
        } else {
            self.current_status_until = now + sampled_off_duration_micros;
            self.current_bandwith = 0;
        }
    }

    /// The train's long-run duty-cycle-weighted mean rate in bytes per
    /// second: the bandwidth-distribution mean times the fraction of time
    /// spent `ON`. A pure query, used for calibration and reporting.
    pub fn mean_bandwith(&self) -> (r: u64)
        ensures
            r == self.mean_bandwidth(),
    {
        let on = self.on_mean_micros as u128;
        let off = self.off_mean_micros as u128;
        let bw = self.bandwith_mean as u128;
        let denom = on + off;
        if denom == 0 {
            0
        } else {
            assert(bw * on <= u128::MAX) by (nonlinear_arith)
                requires
                    bw <= u64::MAX,
                    on <= u64::MAX,
            ;
            let q = (bw * on) / denom;
            proof {
                lemma_mul_inequality(on as int, denom as int, bw as int);
                lemma_mul_is_commutative(on as int, bw as int);
                lemma_mul_is_commutative(denom as int, bw as int);
                lemma_div_is_ordered(bw as int * on as int, bw as int * denom as int, denom as int);
                lemma_div_multiples_vanish(bw as int, denom as int);
            }
            q as u64
        }
    }

    /// The token-bucket check: the train may send exactly when the bytes
    /// accrued so far fall short of the budget the sampled rate has earned
    /// over the elapsed part of the window. The comparison
    /// `rate * elapsed_seconds > bytes_sent` is taken exactly, with the
    /// elapsed time in microseconds.
    pub fn may_send(&self, now: u64) -> (r: bool)
        requires
            now >= self.current_status_since,
        ensures
            r == (self.current_bandwith * (now - self.current_status_since) > self.sum_of_data
                * 1_000_000),
    {
        let elapsed = (now - self.current_status_since) as u128;
        assert((self.current_bandwith as u128) * elapsed <= u128::MAX) by (nonlinear_arith)
            requires
                self.current_bandwith <= u64::MAX,
                elapsed <= u64::MAX,
        ;
        let budget = (self.current_bandwith as u128) * elapsed;
        let spent = (self.sum_of_data as u128) * 1_000_000;
        budget > spent
    }

    /// Account one emitted packet: the payload length plus the fixed
    /// per-packet overhead joins the window's byte ledger. Nothing else
    /// changes.
    pub fn record_sent(&mut self, payload_len: u64)
        requires
            old(self).sum_of_data + payload_len + PACKET_OVERHEAD_BYTES <= u64::MAX,
        ensures
            final(self).sum_of_data == old(self).sum_of_data + payload_len
                + PACKET_OVERHEAD_BYTES,
            final(self).on_mean_micros == old(self).on_mean_micros,
            final(self).off_mean_micros == old(self).off_mean_micros,
            final(self).bandwith_mean == old(self).bandwith_mean,
            final(self).currently_on == old(self).currently_on,
            final(self).current_status_since == old(self).current_status_since,
            final(self).current_status_until == old(self).current_status_until,
            final(self).current_bandwith == old(self).current_bandwith,
            old(self).wf() ==> final(self).wf(),
    {
        self.sum_of_data = self.sum_of_data + payload_len + PACKET_OVERHEAD_BYTES;
    }
}

} // verus!
