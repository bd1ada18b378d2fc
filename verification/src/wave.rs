//! Materialized discrete-time waveforms.
//!
//! A `Wave` pairs a time axis (exact rational seconds) with a sample array
//! (integer billionths of an amplitude unit) at a fixed framerate.  Two waves
//! compare equal when their lengths and framerates match, their time axes are
//! exactly equal as values, and their samples differ by at most a fixed small
//! epsilon — a concession to streams computed along different exact pipelines.

use vstd::prelude::*;

use crate::errors::SignalError;
use crate::kernel::SCALE;
use crate::rational::{lemma_round_div_bound, round_div, spec_round_div, Rat, ROUND_BOUND};

verus! {

/// Largest sample magnitude a well-formed wave stores, in billionths of an
/// amplitude unit.
pub const SAMPLE_LIMIT: i128 = 1_000_000_000_000_000_000;

/// Two samples within this many billionths (one thousandth of an amplitude
/// unit) count as equal when waves are compared.
pub const EPSILON: i128 = 1_000_000;

/// Scale factor cap used when normalizing, in billionths.
pub const NORMALIZE_LIMIT: i128 = 1_000_000_000_000_000;

/// A materialized, finite sequence of (time, amplitude) samples at a fixed
/// sample rate.
#[derive(Debug)]
pub struct Wave {
    /// Sampling instants, in seconds; one per sample.
    pub times: Vec<Rat>,
    /// Amplitudes, in billionths of an amplitude unit.
    pub samples: Vec<i128>,
    /// Samples per second.
    pub framerate: u64,
}

/// Magnitude of a sample.
pub open spec fn spec_abs(x: int) -> int {
    if x < 0 {
        -x
    } else {
        x
    }
}

/// Largest sample magnitude in a sample sequence; zero for an empty one.
pub open spec fn spec_max_abs(s: Seq<i128>) -> int
    decreases s.len(),
{
    if s.len() == 0 {
        0
    } else {
        let rest = spec_max_abs(s.drop_last());
        if spec_abs(s.last() as int) >= rest {
            spec_abs(s.last() as int)
        } else {
            rest
        }
    }
}

impl Wave {
    /// Well-formed: one time per sample, positive time denominators, and
    /// samples within the library's sample range.
    pub open spec fn wf(self) -> bool {
        &&& self.times@.len() == self.samples@.len()
        &&& forall|i: int| 0 <= i < self.times@.len() ==> self.times@[i].wf()
        &&& forall|i: int|
            0 <= i < self.samples@.len() ==> -SAMPLE_LIMIT <= #[trigger] self.samples@[i] <= SAMPLE_LIMIT
    }

    /// Wave equality: equal lengths and framerate, exactly equal time values,
    /// and samples equal within `EPSILON`.
    pub open spec fn spec_wave_eq(self, other: Wave) -> bool {
        &&& self.samples@.len() == other.samples@.len()
        &&& self.times@.len() == other.times@.len()
        &&& self.framerate == other.framerate
        &&& forall|i: int| 0 <= i < self.times@.len() ==> self.times@[i].eq_val(other.times@[i])
        &&& forall|i: int|
            0 <= i < self.samples@.len() ==> -EPSILON <= #[trigger] self.samples@[i] - other.samples@[i]
                <= EPSILON
    }

    /// A wave from its parts: sample array, time array and framerate.
    pub fn new(ys: Vec<i128>, ts: Vec<Rat>, framerate: u64) -> (w: Wave)
        requires
            ys@.len() == ts@.len(),
            forall|i: int| 0 <= i < ts@.len() ==> ts@[i].wf(),
            forall|i: int| 0 <= i < ys@.len() ==> -SAMPLE_LIMIT <= #[trigger] ys@[i] <= SAMPLE_LIMIT,
        ensures
            w.samples@ == ys@,
            w.times@ == ts@,
            w.framerate == framerate,
            w.wf(),
    {
        Wave { times: ts, samples: ys, framerate }
    }

    /// Number of samples.
    pub fn len(&self) -> (n: usize)
        ensures
            n == self.samples@.len(),
    {
        self.samples.len()
    }

    /// The canonical bridge from externally decoded audio: a wave over one
    /// channel's sample buffer whose time axis is exactly `i / framerate`.
    /// Feeding the resulting sample buffer and framerate back reconstructs an
    /// equal wave.
    pub fn from_samples(samples: Vec<i128>, framerate: u64) -> (w: Wave)
        requires
            1 <= framerate <= 1_000_000,
            samples@.len() <= 1_000_000_000_000,
            forall|i: int|
                0 <= i < samples@.len() ==> -SAMPLE_LIMIT <= #[trigger] samples@[i] <= SAMPLE_LIMIT,
        ensures
            w.wf(),
            w.framerate == framerate,
            w.samples@ == samples@,
            w.times@.len() == samples@.len(),
            forall|i: int|
                0 <= i < w.times@.len() ==> (#[trigger] w.times@[i]).num == i && w.times@[i].den == framerate,
    {
        let n = samples.len();
        let mut times: Vec<Rat> = Vec::new();
        let mut i: usize = 0;
        while i < n
            invariant
                i <= n,
                n == samples@.len(),
                n <= 1_000_000_000_000,
                1 <= framerate <= 1_000_000,
                times@.len() == i,
                forall|j: int| 0 <= j < i ==> (#[trigger] times@[j]).num == j && times@[j].den == framerate,
            decreases n - i,
        {
            times.push(Rat { num: i as i64, den: framerate as i64 });
            i = i + 1;
        }
        Wave { times, samples, framerate }
    }

    /// Rescale every sample by a common factor so that the largest magnitude
    /// becomes `amp`; a wave with only zero samples has no such factor and is
    /// reported as a domain error.
    pub fn normalize(self, amp: Rat) -> (r: Result<Wave, SignalError>)
        requires
            self.wf(),
            amp.wf(),
            amp.bounded(1_000_000),
        ensures
            r is Err <==> (forall|i: int| 0 <= i < self.samples@.len() ==> #[trigger] self.samples@[i] == 0),
            r matches Err(e) ==> e == SignalError::EmptySignalNormalize,
            r matches Ok(w) ==> {
                &&& w.wf()
                &&& w.framerate == self.framerate
                &&& w.times@ == self.times@
                &&& w.samples@.len() == self.samples@.len()
                &&& forall|i: int|
                    0 <= i < self.samples@.len() ==> #[trigger] w.samples@[i] == spec_round_div(
                        amp.num * self.samples@[i] * SCALE,
                        amp.den * spec_max_abs(self.samples@),
                    )
            },
    {
        let m = max_abs(&self.samples);
        if m == 0 {
            Err(SignalError::EmptySignalNormalize)
        } else {
            let n = self.samples.len();
            let mut ys: Vec<i128> = Vec::new();
            let mut i: usize = 0;
            while i < n
                invariant
                    i <= n,
                    n == self.samples@.len(),
                    self.wf(),
                    amp.wf(),
                    amp.bounded(1_000_000),
                    1 <= m <= SAMPLE_LIMIT,
                    m == spec_max_abs(self.samples@),
                    forall|k: int|
                        0 <= k < n ==> -(m as int) <= #[trigger] self.samples@[k] <= m as int,
                    ys@.len() == i,
                    forall|j: int|
                        0 <= j < i ==> #[trigger] ys@[j] == spec_round_div(
                            amp.num * self.samples@[j] * SCALE,
                            amp.den * m,
                        ) && -SAMPLE_LIMIT <= ys@[j] <= SAMPLE_LIMIT,
                decreases n - i,
            {
                let s = self.samples[i];
                proof {
                    let a = amp.num * s * SCALE;
                    let b = amp.den * (m as int);
                    assert(1 <= b <= ROUND_BOUND && -ROUND_BOUND <= a <= ROUND_BOUND
                        && -(NORMALIZE_LIMIT * b) <= a <= NORMALIZE_LIMIT * b) by (nonlinear_arith)
                        requires
                            a == amp.num * s * SCALE,
                            b == amp.den * (m as int),
                            -1_000_000 <= amp.num <= 1_000_000,
                            1 <= amp.den <= 1_000_000,
                            1 <= m <= SAMPLE_LIMIT,
                            -(m as int) <= s <= m as int,
                    ;
                    lemma_round_div_bound(a, b, NORMALIZE_LIMIT as int);
                }
                let num = (amp.num as i128) * s * SCALE;
                let den = (amp.den as i128) * m;
                ys.push(round_div(num, den));
                i = i + 1;
            }
            let w = Wave { times: self.times, samples: ys, framerate: self.framerate };
            Ok(w)
        }
    }
}

/// Largest sample magnitude in a sample buffer.
pub fn max_abs(v: &Vec<i128>) -> (r: i128)
    requires
        forall|i: int| 0 <= i < v@.len() ==> -SAMPLE_LIMIT <= #[trigger] v@[i] <= SAMPLE_LIMIT,
    ensures
        r == spec_max_abs(v@),
        0 <= r <= SAMPLE_LIMIT,
        forall|i: int| 0 <= i < v@.len() ==> -r <= #[trigger] v@[i] <= r,
        (r == 0) <==> (forall|i: int| 0 <= i < v@.len() ==> #[trigger] v@[i] == 0),
{
    let n = v.len();
    let mut acc: i128 = 0;
    let mut i: usize = 0;
    while i < n
        invariant
            i <= n,
            n == v@.len(),
            forall|k: int| 0 <= k < n ==> -SAMPLE_LIMIT <= #[trigger] v@[k] <= SAMPLE_LIMIT,
            0 <= acc <= SAMPLE_LIMIT,
            acc == spec_max_abs(v@.take(i as int)),
            forall|j: int| 0 <= j < i ==> -acc <= #[trigger] v@[j] <= acc,
            (acc == 0) <==> (forall|j: int| 0 <= j < i ==> #[trigger] v@[j] == 0),
        decreases n - i,
    {
        let x = v[i];
        let ax = if x < 0 {
            -x
        } else {
            x
        };
        proof {
            assert(v@.take(i + 1).drop_last() =~= v@.take(i as int));
            assert(v@.take(i + 1).last() == v@[i as int]);
        }
        if ax > acc {
            acc = ax;
        }
        i = i + 1;
    }
    proof {
        assert(v@.take(n as int) =~= v@);
    }
    acc
}

/// Elementwise sum of two equally long sample buffers; buffers of unequal
/// length are a caller contract violation reported as `LengthMismatch`.
pub fn add_samples(a: &Vec<i128>, b: &Vec<i128>) -> (r: Result<Vec<i128>, SignalError>)
    requires
        forall|i: int| 0 <= i < a@.len() ==> -SAMPLE_LIMIT <= #[trigger] a@[i] <= SAMPLE_LIMIT,
        forall|i: int| 0 <= i < b@.len() ==> -SAMPLE_LIMIT <= #[trigger] b@[i] <= SAMPLE_LIMIT,
    ensures
        r is Ok <==> a@.len() == b@.len(),
        r matches Err(e) ==> e == SignalError::LengthMismatch,
        r matches Ok(c) ==> c@.len() == a@.len() && forall|i: int|
            0 <= i < a@.len() ==> #[trigger] c@[i] == a@[i] + b@[i],
{
    let n = a.len();
    if n != b.len() {
        return Err(SignalError::LengthMismatch);
    }
    let mut c: Vec<i128> = Vec::new();
    let mut i: usize = 0;
    while i < n
        invariant
            i <= n,
            n == a@.len(),
            n == b@.len(),
            forall|k: int| 0 <= k < n ==> -SAMPLE_LIMIT <= #[trigger] a@[k] <= SAMPLE_LIMIT,
            forall|k: int| 0 <= k < n ==> -SAMPLE_LIMIT <= #[trigger] b@[k] <= SAMPLE_LIMIT,
            c@.len() == i,
            forall|j: int| 0 <= j < i ==> #[trigger] c@[j] == a@[j] + b@[j],
        decreases n - i,
    {
        c.push(a[i] + b[i]);
        i = i + 1;
    }
    Ok(c)
}

/// Round-trip stability of the decoded-audio bridge: two waves built from
/// the same sample buffer and framerate, each with the canonical `i /
/// framerate` time axis, are equal waves.
pub proof fn lemma_from_samples_round_trip(w1: Wave, w2: Wave)
    requires
        w1.samples@ == w2.samples@,
        w1.framerate == w2.framerate,
        w1.times@.len() == w1.samples@.len(),
        w2.times@.len() == w2.samples@.len(),
        forall|i: int|
            0 <= i < w1.times@.len() ==> (#[trigger] w1.times@[i]).num == i
                && w1.times@[i].den == w1.framerate,
        forall|i: int|
            0 <= i < w2.times@.len() ==> (#[trigger] w2.times@[i]).num == i
                && w2.times@[i].den == w2.framerate,
    ensures
        w1.spec_wave_eq(w2),
{
    assert forall|i: int| 0 <= i < w1.times@.len() implies w1.times@[i].eq_val(w2.times@[i]) by {
        assert(w1.times@[i].num == w2.times@[i].num && w1.times@[i].den == w2.times@[i].den);
    }
}

impl PartialEq for Wave {
    /// Equality per `spec_wave_eq`: exact lengths, framerate and times,
    /// samples within `EPSILON`.
    fn eq(&self, other: &Wave) -> (r: bool) {
        if self.samples.len() != other.samples.len() {
            return false;
        }
        if self.times.len() != other.times.len() {
            return false;
        }
        if self.framerate != other.framerate {
            return false;
        }
        let nt = self.times.len();
        let mut i: usize = 0;
        while i < nt
            invariant
                i <= nt,
                nt == self.times@.len(),
                nt == other.times@.len(),
                forall|j: int| 0 <= j < i ==> self.times@[j].eq_val(other.times@[j]),
            decreases nt - i,
        {
            if !(self.times[i] == other.times[i]) {
                return false;
            }
            i = i + 1;
        }
        let ns = self.samples.len();
        let mut k: usize = 0;
        while k < ns
            invariant
                k <= ns,
                ns == self.samples@.len(),
                ns == other.samples@.len(),
                forall|j: int|
                    0 <= j < k ==> -EPSILON <= #[trigger] self.samples@[j] - other.samples@[j] <= EPSILON,
            decreases ns - k,
        {
            let x = self.samples[k];
            let y = other.samples[k];
            let within = if x >= y {
                if y >= i128::MAX - EPSILON {
                    true
                } else {
                    x <= y + EPSILON
                }
            } else {
                if x >= i128::MAX - EPSILON {
                    true
                } else {
                    y <= x + EPSILON
                }
            };
            if !within {
                return false;
            }
            k = k + 1;
        }
        true
    }
}

impl vstd::std_specs::cmp::PartialEqSpecImpl for Wave {
    open spec fn obeys_eq_spec() -> bool {
        true
    }

    open spec fn eq_spec(&self, other: &Wave) -> bool {
        self.spec_wave_eq(*other)
    }
}

} // verus!
