//! The throughputs observed so far, and their mean.
//!
//! A bandwidth of `b` bytes per second is `b × 8 / 1,000,000` megabits per
//! second. The contracts keep that value exact by counting in millionths of
//! a megabit per second: `b` bytes per second are `8 × b` millionths.

use crate::speedtest_data::SpeedtestStruct;
use vstd::arithmetic::div_mod::{
    lemma_div_is_ordered,
    lemma_div_multiples_vanish,
    lemma_fundamental_div_mod,
    lemma_hoist_over_denominator,
};
use vstd::prelude::*;

verus! {

/// A bandwidth in bytes per second as a throughput in millionths of a
/// megabit per second.
pub open spec fn mbps_millionths(bandwidth: u64) -> nat {
    8 * (bandwidth as nat)
}

/// Converts a bandwidth in bytes per second to millionths of a megabit per
/// second.
pub fn to_mbps_millionths(bandwidth: u64) -> (millionths: u128)
    ensures
        millionths == mbps_millionths(bandwidth),
{
    8 * (bandwidth as u128)
}

/// One side of each pair of bandwidths (the first, or with `second` the
/// second) as a throughput in millionths of a megabit per second.
pub open spec fn millionths_of(pairs: Seq<(u64, u64)>, second: bool) -> Seq<nat> {
    Seq::new(
        pairs.len(),
        |i: int|
            if second {
                mbps_millionths(pairs[i].1)
            } else {
                mbps_millionths(pairs[i].0)
            },
    )
}

/// The sum of `values`.
pub open spec fn sum(values: Seq<nat>) -> nat
    decreases values.len(),
{
    if values.len() == 0 {
        0
    } else {
        sum(values.drop_last()) + values.last()
    }
}

/// The arithmetic mean of `values`, rounded down to a whole number; no value
/// when there is nothing to average.
pub open spec fn mean(values: Seq<nat>) -> Option<nat> {
    if values.len() == 0 {
        None
    } else {
        Some(sum(values) / values.len())
    }
}

/// The mean lies within one unit below the exact quotient of sum and count,
/// and is that quotient wherever the count divides the sum.
pub proof fn lemma_mean_is_floor(values: Seq<nat>)
    requires
        values.len() > 0,
    ensures
        mean(values) is Some,
        mean(values)->Some_0 * values.len() <= sum(values),
        sum(values) < (mean(values)->Some_0 + 1) * values.len(),
        sum(values) % values.len() == 0 ==> mean(values)->Some_0 * values.len() == sum(values),
{
    let n = values.len() as int;
    let s = sum(values) as int;
    lemma_fundamental_div_mod(s, n);
    assert(n * (s / n) == (s / n) * n) by (nonlinear_arith);
    assert((s / n + 1) * n == (s / n) * n + n) by (nonlinear_arith);
}

/// Appending a pair of bandwidths appends its throughput on either side.
proof fn lemma_millionths_push(pairs: Seq<(u64, u64)>, pair: (u64, u64))
    ensures
        millionths_of(pairs.push(pair), false) == millionths_of(pairs, false).push(
            mbps_millionths(pair.0),
        ),
        millionths_of(pairs.push(pair), true) == millionths_of(pairs, true).push(
            mbps_millionths(pair.1),
        ),
{
    assert(millionths_of(pairs.push(pair), false) =~= millionths_of(pairs, false).push(
        mbps_millionths(pair.0),
    ));
    assert(millionths_of(pairs.push(pair), true) =~= millionths_of(pairs, true).push(
        mbps_millionths(pair.1),
    ));
}

/// The mean throughput of one side of `pairs` in millionths of a megabit per
/// second.
fn mean_millionths(pairs: &Vec<(u64, u64)>, second: bool) -> (result: Option<u128>)
    ensures
        match mean(millionths_of(pairs@, second)) {
            Some(value) => result == Some(value as u128) && value <= u128::MAX,
            None => result is None,
        },
{
    let n = pairs.len();
    if n == 0 {
        return None;
    }
    let mut total: u128 = 0;
    let mut i: usize = 0;
    assert(pairs@.take(0) =~= Seq::<(u64, u64)>::empty());
    while i < n
        invariant
            i <= n,
            n == pairs.len(),
            8 * total == sum(millionths_of(pairs@.take(i as int), second)),
            total <= i * 0xffff_ffff_ffff_ffff,
        decreases n - i,
    {
        proof {
            let before = pairs@.take(i as int);
            assert(pairs@.take(i + 1) =~= before.push(pairs@[i as int]));
            lemma_millionths_push(before, pairs@[i as int]);
            let after = millionths_of(pairs@.take(i + 1), second);
            assert(after.drop_last() =~= millionths_of(before, second));
        }
        let bandwidth = if second {
            pairs[i].1
        } else {
            pairs[i].0
        };
        total = total + bandwidth as u128;
        i = i + 1;
    }
    assert(pairs@.take(n as int) =~= pairs@);
    let count = n as u128;
    let whole = total / count;
    let rest = total % count;
    proof {
        let t = total as int;
        let c = count as int;
        lemma_fundamental_div_mod(t, c);
        lemma_div_is_ordered(t, c * 0xffff_ffff_ffff_ffff, c);
        lemma_div_multiples_vanish(0xffff_ffff_ffff_ffff, c);
        assert(whole <= 0xffff_ffff_ffff_ffff);
        lemma_hoist_over_denominator(8 * (rest as int), 8 * (whole as int), c as nat);
        assert(8 * rest + (8 * whole) * c == 8 * t) by (nonlinear_arith)
            requires
                t == c * whole + rest,
        ;
        lemma_div_is_ordered(8 * (rest as int), 8 * c, c);
        lemma_div_multiples_vanish(8, c);
    }
    Some(8 * whole + (8 * rest) / count)
}

/// The download and upload throughputs of the results received so far, in
/// the order in which they came. Both sequences always have one entry per
/// result.
pub struct RunningTotals {
    /// Download and upload bandwidth of each result, in bytes per second.
    bandwidths: Vec<(u64, u64)>,
}

impl RunningTotals {
    /// The observed download throughputs, in millionths of a megabit per
    /// second.
    pub closed spec fn downloads(&self) -> Seq<nat> {
        millionths_of(self.bandwidths@, false)
    }

    /// The observed upload throughputs, in millionths of a megabit per
    /// second.
    pub closed spec fn uploads(&self) -> Seq<nat> {
        millionths_of(self.bandwidths@, true)
    }

    /// There are at all times as many download values as upload values.
    pub proof fn lemma_lengths_agree(&self)
        ensures
            self.downloads().len() == self.uploads().len(),
    {
    }

    /// Totals with nothing observed.
    pub fn new() -> (totals: RunningTotals)
        ensures
            totals.downloads() == Seq::<nat>::empty(),
            totals.uploads() == Seq::<nat>::empty(),
    {
        let totals = RunningTotals { bandwidths: Vec::new() };
        assert(totals.downloads() =~= Seq::<nat>::empty());
        assert(totals.uploads() =~= Seq::<nat>::empty());
        totals
    }

    /// Number of results observed; both sequences have this length.
    pub fn len(&self) -> (count: usize)
        ensures
            count == self.downloads().len(),
            count == self.uploads().len(),
    {
        self.bandwidths.len()
    }

    /// Takes in one result: its download and upload throughputs are appended,
    /// one entry each.
    pub fn record(&mut self, result: &SpeedtestStruct)
        ensures
            final(self).downloads() == old(self).downloads().push(
                mbps_millionths(result.download.bandwidth),
            ),
            final(self).uploads() == old(self).uploads().push(
                mbps_millionths(result.upload.bandwidth),
            ),
    {
        proof {
            lemma_millionths_push(
                self.bandwidths@,
                (result.download.bandwidth, result.upload.bandwidth),
            );
        }
        self.bandwidths.push((result.download.bandwidth, result.upload.bandwidth));
    }

    /// The download throughput of the result at `index`, in millionths of a
    /// megabit per second.
    pub fn download_at(&self, index: usize) -> (value: Option<u128>)
        ensures
            index < self.downloads().len() ==> value == Some(self.downloads()[index as int] as u128),
            index >= self.downloads().len() ==> value is None,
    {
        if index < self.bandwidths.len() {
            Some(to_mbps_millionths(self.bandwidths[index].0))
        } else {
            None
        }
    }

    /// The upload throughput of the result at `index`, in millionths of a
    /// megabit per second.
    pub fn upload_at(&self, index: usize) -> (value: Option<u128>)
        ensures
            index < self.uploads().len() ==> value == Some(self.uploads()[index as int] as u128),
            index >= self.uploads().len() ==> value is None,
    {
        if index < self.bandwidths.len() {
            Some(to_mbps_millionths(self.bandwidths[index].1))
        } else {
            None
        }
    }

    /// The mean download throughput, in millionths of a megabit per second,
    /// rounded down; `None` while nothing was observed.
    pub fn average_download(&self) -> (average: Option<u128>)
        ensures
            match mean(self.downloads()) {
                Some(value) => average == Some(value as u128) && value <= u128::MAX,
                None => average is None,
            },
    {
        mean_millionths(&self.bandwidths, false)
    }

    /// The mean upload throughput, in millionths of a megabit per second,
    /// rounded down; `None` while nothing was observed.
    pub fn average_upload(&self) -> (average: Option<u128>)
        ensures
            match mean(self.uploads()) {
                Some(value) => average == Some(value as u128) && value <= u128::MAX,
                None => average is None,
            },
    {
        mean_millionths(&self.bandwidths, true)
    }
}

} // verus!
