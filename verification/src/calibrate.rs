//! One-time calibration of a mix of trains to a target aggregate bandwidth.
//!
//! The calibrator sums the long-run mean bandwidth of all trains, divides the
//! target by that sum, and rescales every train's bandwidth-distribution mean
//! by the resulting factor, keeping each train's relative share of the mix.

use vstd::prelude::*;
use crate::packet_train::{PacketTrain, mean_bandwidth_spec};
use vstd::arithmetic::div_mod::{
    lemma_div_pos_is_pos,
    lemma_fundamental_div_mod,
    lemma_mod_bound,
};
use vstd::arithmetic::mul::lemma_mul_nonnegative;

verus! {

/// Why calibration was refused.
#[derive(Debug, Clone, Copy, PartialEq, Eq, Structural)]
pub enum CalibrationError {
    /// The trains' mean bandwidths sum to zero: a zero mix cannot be rescaled
    /// to any target.
    ZeroMeanSum,
    /// A rescaled bandwidth mean would exceed the representable rate range.
    BandwidthOverflow,
}

/// Sum of the long-run mean bandwidths of a sequence of trains, in bytes per
/// second.
pub open spec fn sum_mean_bandwidths(s: Seq<PacketTrain>) -> int
    decreases s.len(),
{
    if s.len() == 0 {
        0
    } else {
        sum_mean_bandwidths(s.drop_last()) + s.last().mean_bandwidth()
    }
}

/// `t` with its bandwidth-distribution mean rescaled by `target / total`,
/// rounded down; every other field kept.
pub open spec fn rescaled(t: PacketTrain, target: int, total: int) -> PacketTrain {
    PacketTrain { bandwith_mean: (t.bandwith_mean * target / total) as u64, ..t }
}

/// Rescale every train's bandwidth mean so the mix's aggregate long-run mean
/// bandwidth matches `target` (bytes per second).
///
/// Fails with `ZeroMeanSum`, leaving the trains untouched, exactly when the
/// mean bandwidths sum to zero; with `BandwidthOverflow`, also leaving them
/// untouched, exactly when some rescaled mean would not fit the representable
/// range. Otherwise every train's `bandwith_mean` becomes
/// `old mean * target / total`, rounded down, and nothing else changes.
pub fn calibrate(trains: &mut Vec<PacketTrain>, target: u64) -> (r: Result<
    (),
    CalibrationError,
>)
    ensures
        final(trains)@.len() == old(trains)@.len(),
        (r == Err::<(), CalibrationError>(CalibrationError::ZeroMeanSum)) <==> sum_mean_bandwidths(
            old(trains)@,
        ) == 0,
        (r == Err::<(), CalibrationError>(CalibrationError::BandwidthOverflow)) <==> (
        sum_mean_bandwidths(old(trains)@) != 0 && exists|i: int|
            0 <= i < old(trains)@.len() && old(trains)@[i].bandwith_mean * target
                / sum_mean_bandwidths(old(trains)@) > u64::MAX),
        (r is Ok) <==> (sum_mean_bandwidths(old(trains)@) != 0 && forall|i: int|
            0 <= i < old(trains)@.len() ==> old(trains)@[i].bandwith_mean * target
                / sum_mean_bandwidths(old(trains)@) <= u64::MAX),
        r is Err ==> final(trains)@ == old(trains)@,
        r is Ok ==> (sum_mean_bandwidths(old(trains)@) != 0 && forall|i: int|
            0 <= i < final(trains)@.len() ==> final(trains)@[i] == rescaled(
                old(trains)@[i],
                target as int,
                sum_mean_bandwidths(old(trains)@),
            )),
{
    let ghost m = sum_mean_bandwidths(trains@);
    let n = trains.len();
    let mut total: u128 = 0;
    let mut k: usize = 0;
    while k < n
        invariant
            n == trains@.len(),
            trains@ == old(trains)@,
            0 <= k <= n,
            total == sum_mean_bandwidths(trains@.take(k as int)),
            total <= k * (u64::MAX as int),
        decreases n - k,
    {
        let mb = trains[k].mean_bandwith();
        assert((k + 1) * (u64::MAX as int) == k * (u64::MAX as int) + u64::MAX as int)
            by (nonlinear_arith);
        assert((k + 1) * (u64::MAX as int) <= u128::MAX) by (nonlinear_arith)
            requires
                0 <= k < 0x1_0000_0000_0000_0000,
        ;
        total = total + mb as u128;
        proof {
            lemma_sum_take_push(trains@, k as int);
        }
        k = k + 1;
    }
    proof {
        assert(trains@.take(n as int) =~= trains@);
    }
    if total == 0 {
        return Err(CalibrationError::ZeroMeanSum);
    }
    let mut k: usize = 0;
    while k < n
        invariant
            n == trains@.len(),
            trains@ == old(trains)@,
            0 <= k <= n,
            total == m,
            total > 0,
            m == sum_mean_bandwidths(old(trains)@),
            forall|i: int|
                0 <= i < k ==> old(trains)@[i].bandwith_mean * target / m <= u64::MAX,
        decreases n - k,
    {
        assert((trains@[k as int].bandwith_mean as int) * (target as int) <= u128::MAX)
            by (nonlinear_arith)
            requires
                trains@[k as int].bandwith_mean <= u64::MAX,
                target <= u64::MAX,
        ;
        let scaled = (trains[k].bandwith_mean as u128) * (target as u128) / total;
        if scaled > u64::MAX as u128 {
            return Err(CalibrationError::BandwidthOverflow);
        }
        k = k + 1;
    }
    let mut k: usize = 0;
    while k < n
        invariant
            n == trains@.len(),
            trains@.len() == old(trains)@.len(),
            0 <= k <= n,
            total == m,
            total > 0,
            m == sum_mean_bandwidths(old(trains)@),
            forall|i: int|
                0 <= i < n ==> old(trains)@[i].bandwith_mean * target / m <= u64::MAX,
            forall|i: int| k <= i < n ==> trains@[i] == old(trains)@[i],
            forall|i: int|
                0 <= i < k ==> trains@[i] == rescaled(old(trains)@[i], target as int, m),
        decreases n - k,
    {
        assert((trains@[k as int].bandwith_mean as int) * (target as int) <= u128::MAX)
            by (nonlinear_arith)
            requires
                trains@[k as int].bandwith_mean <= u64::MAX,
                target <= u64::MAX,
        ;
        let scaled = (trains[k].bandwith_mean as u128) * (target as u128) / total;
        assert(scaled <= u64::MAX);
        let mut t = trains[k];
        t.bandwith_mean = scaled as u64;
        proof {
            assert(t == rescaled(old(trains)@[k as int], target as int, m));
        }
        trains[k] = t;
        k = k + 1;
    }
    Ok(())
}

/// Ties the running sum to one more element of the sequence.
proof fn lemma_sum_take_push(s: Seq<PacketTrain>, k: int)
    requires
        0 <= k < s.len(),
    ensures
        sum_mean_bandwidths(s.take(k + 1)) == sum_mean_bandwidths(s.take(k))
            + s[k].mean_bandwidth(),
{
    assert(s.take(k + 1).drop_last() =~= s.take(k));
    assert(s.take(k + 1).last() == s[k]);
}

/// Share-preservation law of calibration: a rescaled mean is the exact
/// proportional value `old_mean * target / total` rounded down, so each
/// train's relative share of the mix is kept to within one rounding unit:
/// `total * new_mean <= old_mean * target < total * (new_mean + 1)`.
pub proof fn lemma_calibration_share(old_mean: int, target: int, total: int, new_mean: int)
    requires
        0 <= old_mean,
        0 <= target,
        0 < total,
        new_mean == old_mean * target / total,
    ensures
        total * new_mean <= old_mean * target,
        old_mean * target < total * (new_mean + 1),
{
    lemma_fundamental_div_mod(old_mean * target, total);
    lemma_mod_bound(old_mean * target, total);
    assert(total * (new_mean + 1) == total * new_mean + total) by (nonlinear_arith);
}

/// How rescaling the bandwidth mean by `target / total` moves one train's
/// long-run mean bandwidth: at most one rounding unit of `target / total`
/// above the proportional value, at most two units below.
proof fn lemma_rescaled_mean_bounds(on: int, off: int, bw: int, target: int, total: int)
    requires
        0 <= on,
        0 <= off,
        0 <= bw,
        0 <= target,
        0 < total,
    ensures
        total * mean_bandwidth_spec(on, off, bw * target / total) <= target * (
        mean_bandwidth_spec(on, off, bw) + 1),
        total * (mean_bandwidth_spec(on, off, bw * target / total) + 2) > target
            * mean_bandwidth_spec(on, off, bw),
{
    let b = on + off;
    let w = bw * target / total;
    lemma_mul_nonnegative(bw, target);
    lemma_div_pos_is_pos(bw * target, total);
    lemma_fundamental_div_mod(bw * target, total);
    lemma_mod_bound(bw * target, total);
    if b == 0 {
        assert(total * 0 <= target * (0 + 1)) by (nonlinear_arith)
            requires
                0 <= target,
        ;
        assert(total * (0 + 2) > target * 0) by (nonlinear_arith)
            requires
                0 < total,
        ;
    } else {
        let d = bw * on / b;
        let dd = w * on / b;
        lemma_mul_nonnegative(bw, on);
        lemma_mul_nonnegative(w, on);
        lemma_div_pos_is_pos(bw * on, b);
        lemma_div_pos_is_pos(w * on, b);
        lemma_fundamental_div_mod(bw * on, b);
        lemma_mod_bound(bw * on, b);
        lemma_fundamental_div_mod(w * on, b);
        lemma_mod_bound(w * on, b);
        assert(total * dd <= target * (d + 1)) by (nonlinear_arith)
            requires
                b > 0,
                total > 0,
                target >= 0,
                0 <= on <= b,
                bw >= 0,
                w >= 0,
                d >= 0,
                dd >= 0,
                b * dd <= w * on,
                total * w <= bw * target,
                bw * on < b * d + b,
        ;
        assert(total * (dd + 2) > target * d) by (nonlinear_arith)
            requires
                b > 0,
                total > 0,
                target >= 0,
                0 <= on <= b,
                bw >= 0,
                w >= 0,
                d >= 0,
                dd >= 0,
                w * on < b * dd + b,
                bw * target < total * w + total,
                b * d <= bw * on,
        ;
    }
}

/// Induction over a prefix of the mix for `lemma_calibration_total`.
proof fn lemma_calibration_total_prefix(
    s_old: Seq<PacketTrain>,
    s_new: Seq<PacketTrain>,
    target: int,
    total: int,
    k: int,
)
    requires
        total > 0,
        target >= 0,
        s_new.len() == s_old.len(),
        0 <= k <= s_old.len(),
        forall|i: int|
            0 <= i < s_old.len() ==> s_old[i].bandwith_mean * target / total <= u64::MAX,
        forall|i: int| 0 <= i < s_old.len() ==> s_new[i] == rescaled(s_old[i], target, total),
    ensures
        total * sum_mean_bandwidths(s_new.take(k)) <= target * (sum_mean_bandwidths(s_old.take(k))
            + k),
        total * (sum_mean_bandwidths(s_new.take(k)) + 2 * k) >= target * sum_mean_bandwidths(
            s_old.take(k),
        ),
    decreases k,
{
    if k == 0 {
        assert(s_new.take(0) =~= Seq::<PacketTrain>::empty());
        assert(s_old.take(0) =~= Seq::<PacketTrain>::empty());
        assert(total * 0 <= target * 0 && total * (0 + 2 * 0) >= target * 0) by (nonlinear_arith);
    } else {
        lemma_calibration_total_prefix(s_old, s_new, target, total, k - 1);
        lemma_sum_take_push(s_old, k - 1);
        lemma_sum_take_push(s_new, k - 1);
        let t = s_old[k - 1];
        let on = t.on_mean_micros as int;
        let off = t.off_mean_micros as int;
        let bw = t.bandwith_mean as int;
        let w = bw * target / total;
        lemma_mul_nonnegative(bw, target);
        lemma_div_pos_is_pos(bw * target, total);
        assert(w <= u64::MAX);
        assert(s_new[k - 1].mean_bandwidth() == mean_bandwidth_spec(on, off, w));
        lemma_rescaled_mean_bounds(on, off, bw, target, total);
        let s1 = sum_mean_bandwidths(s_new.take(k - 1));
        let d1 = sum_mean_bandwidths(s_old.take(k - 1));
        let d = mean_bandwidth_spec(on, off, bw);
        let dd = mean_bandwidth_spec(on, off, w);
        assert(total * (s1 + dd) <= target * ((d1 + d) + k)) by (nonlinear_arith)
            requires
                total * s1 <= target * (d1 + (k - 1)),
                total * dd <= target * (d + 1),
        ;
        assert(total * ((s1 + dd) + 2 * k) >= target * (d1 + d)) by (nonlinear_arith)
            requires
                total * (s1 + 2 * (k - 1)) >= target * d1,
                total * (dd + 2) > target * d,
                total > 0,
        ;
    }
}

/// Total-bandwidth law of calibration: rescaling every train's bandwidth
/// mean by `target / total`, where `total` is the sum of the trains' long-run
/// mean bandwidths, brings that sum back to `target` up to integer rounding —
/// the new sum falls short of the target by less than two units per train,
/// and exceeds it, scaled by `total`, by less than `target` per train.
pub proof fn lemma_calibration_total(
    s_old: Seq<PacketTrain>,
    s_new: Seq<PacketTrain>,
    target: int,
    total: int,
)
    requires
        total == sum_mean_bandwidths(s_old),
        total > 0,
        target >= 0,
        s_new.len() == s_old.len(),
        forall|i: int|
            0 <= i < s_old.len() ==> s_old[i].bandwith_mean * target / total <= u64::MAX,
        forall|i: int| 0 <= i < s_old.len() ==> s_new[i] == rescaled(s_old[i], target, total),
    ensures
        total * sum_mean_bandwidths(s_new) <= target * (total + s_old.len()),
        sum_mean_bandwidths(s_new) + 2 * s_old.len() >= target,
{
    lemma_calibration_total_prefix(s_old, s_new, target, total, s_old.len() as int);
    assert(s_old.take(s_old.len() as int) =~= s_old);
    assert(s_new.take(s_new.len() as int) =~= s_new);
    assert(sum_mean_bandwidths(s_new) + 2 * s_old.len() >= target) by (nonlinear_arith)
        requires
            total * (sum_mean_bandwidths(s_new) + 2 * s_old.len()) >= target * total,
            total > 0,
    ;
}

} // verus!
