//! The signal abstraction: evaluable, periodic, samplable.
//!
//! A `Signal` reports a characteristic period, evaluates its amplitude at a
//! set of time instants, and materializes into a `Wave` by sampling `n =
//! round(duration * framerate)` evenly spaced instants `start + i /
//! framerate`.  The primitive signal is the `Sinusoid`; signals compose by
//! summation, either pairwise (`SumSinusoid`) or over an ordered collection
//! of operands (`SumSignal`).

use vstd::prelude::*;

use crate::errors::SignalError;
use crate::kernel::{kernel_at, lemma_kernel_range, spec_kernel, Kernel, SCALE};
use crate::rational::{euclid_mod, lemma_round_div_bound, lemma_round_div_nonneg, round_div,
    spec_round_div, wide_mul, Rat, ROUND_BOUND};
use crate::wave::{add_samples, Wave, SAMPLE_LIMIT};
use vstd::pervasive::unreached;

verus! {

/// Magnitude cap on the numerators and denominators of signal parameters
/// (frequencies, amplitudes, phase offsets, durations, start times).
pub const PARAM_LIMIT: i64 = 1_000_000;

/// Largest framerate accepted when sampling.
pub const FRAMERATE_LIMIT: u64 = 1_000_000;

/// Largest sample count a single sampling run can produce
/// (`PARAM_LIMIT * FRAMERATE_LIMIT`).
pub const COUNT_LIMIT: u64 = 1_000_000_000_000;

/// Largest magnitude of one sinusoid's sample, in billionths
/// (`PARAM_LIMIT` amplitude units).
pub const SINGLE_SAMPLE_LIMIT: i128 = 1_000_000_000_000_000;

/// Largest number of operands a `SumSignal` may hold; keeps every summed
/// sample within the wave sample range.
pub const COMPONENT_LIMIT: usize = 1000;

/// Number of samples a signal materializes over `duration` seconds:
/// `round(duration * framerate)`, and zero for non-positive durations.
pub open spec fn spec_wave_len(duration: Rat, framerate: u64) -> int {
    if duration.num <= 0 {
        0
    } else {
        spec_round_div(duration.num * framerate, duration.den as int)
    }
}

/// Executable form of `spec_wave_len`.
pub fn num_samples(duration: Rat, framerate: u64) -> (n: u64)
    requires
        duration.wf(),
        duration.bounded(PARAM_LIMIT as int),
        1 <= framerate <= FRAMERATE_LIMIT,
    ensures
        n == spec_wave_len(duration, framerate),
        n <= COUNT_LIMIT,
{
    if duration.num <= 0 {
        0
    } else {
        proof {
            let a = duration.num * framerate;
            let b = duration.den as int;
            assert(0 <= a <= COUNT_LIMIT * b && a <= ROUND_BOUND) by (nonlinear_arith)
                requires
                    a == duration.num * framerate,
                    b == duration.den as int,
                    1 <= duration.num <= PARAM_LIMIT,
                    1 <= b <= PARAM_LIMIT,
                    1 <= framerate <= FRAMERATE_LIMIT,
            ;
            lemma_round_div_bound(a, b, COUNT_LIMIT as int);
            lemma_round_div_nonneg(a, b);
        }
        round_div(wide_mul(duration.num, framerate as i64), duration.den as i128) as u64
    }
}

/// The `n` evenly spaced sampling instants `start + i / framerate`.
pub fn sample_times(start: Rat, framerate: u64, n: u64) -> (ts: Vec<Rat>)
    requires
        start.wf(),
        start.bounded(PARAM_LIMIT as int),
        1 <= framerate <= FRAMERATE_LIMIT,
        n <= COUNT_LIMIT,
    ensures
        ts@.len() == n,
        forall|i: int|
            0 <= i < n ==> (#[trigger] ts@[i]).num == start.num * framerate + i * start.den
                && ts@[i].den == start.den * framerate,
        forall|i: int| 0 <= i < n ==> (#[trigger] ts@[i]).wf(),
{
    let mut ts: Vec<Rat> = Vec::new();
    let mut i: u64 = 0;
    while i < n
        invariant
            i <= n,
            n <= COUNT_LIMIT,
            start.wf(),
            start.bounded(PARAM_LIMIT as int),
            1 <= framerate <= FRAMERATE_LIMIT,
            ts@.len() == i,
            forall|j: int|
                0 <= j < i ==> (#[trigger] ts@[j]).num == start.num * framerate + j * start.den
                    && ts@[j].den == start.den * framerate,
            forall|j: int| 0 <= j < i ==> (#[trigger] ts@[j]).wf(),
        decreases n - i,
    {
        let step = Rat::new(i as i64, framerate as i64);
        proof {
            assert(-1_000_000_000_000int <= start.num * framerate <= 1_000_000_000_000int
                && 0 <= (i as int) * start.den <= 1_000_000_000_000_000_000int
                && 1 <= start.den * framerate <= 1_000_000_000_000int) by (nonlinear_arith)
                requires
                    -PARAM_LIMIT <= start.num <= PARAM_LIMIT,
                    1 <= start.den <= PARAM_LIMIT,
                    1 <= framerate <= FRAMERATE_LIMIT,
                    0 <= i as int <= COUNT_LIMIT,
            ;
        }
        ts.push(start.add(step));
        i = i + 1;
    }
    ts
}

/// A time-varying signal: a pure amplitude function of time, with a
/// characteristic period, that can be sampled into a `Wave`.
pub trait Signal: Sized {
    /// The structural conditions under which this signal's contracts hold;
    /// a signal that states no conditions has none.
    open spec fn valid(&self) -> bool {
        true
    }

    /// The amplitude at time `t`, in billionths of an amplitude unit;
    /// a signal that says nothing else is modeled as silent.
    open spec fn spec_sample(&self, t: Rat) -> int {
        0
    }

    /// Period of the signal, used as a plotting hint.  The default is one
    /// tenth of a second, a span that shows a few cycles of many everyday
    /// signals; implementations report their own characteristic interval.
    fn period(&self) -> (r: Rat)
        requires
            self.valid(),
        ensures
            r.wf(),
        default_ensures
            r.num == 1 && r.den == 10,
    {
        Rat::new(1, 10)
    }

    /// The signal's amplitude at each instant of `ts`, in order: a pure,
    /// deterministic function of the instants alone.
    fn evaluate(&self, ts: &Vec<Rat>) -> (r: Vec<i128>)
        requires
            self.valid(),
            forall|i: int| 0 <= i < ts@.len() ==> (#[trigger] ts@[i]).wf(),
        ensures
            r@.len() == ts@.len(),
            forall|i: int| 0 <= i < ts@.len() ==> #[trigger] r@[i] == self.spec_sample(ts@[i]),
            forall|i: int| 0 <= i < ts@.len() ==> -SAMPLE_LIMIT <= #[trigger] r@[i] <= SAMPLE_LIMIT,
    ;

    /// Materialize the signal into a wave of `round(duration * framerate)`
    /// samples at instants `start + i / framerate`.  A non-positive duration
    /// yields an empty wave, not an error.
    fn make_wave(&self, duration: Rat, start: Rat, framerate: u64) -> (w: Wave)
        requires
            self.valid(),
            duration.wf(),
            duration.bounded(PARAM_LIMIT as int),
            start.wf(),
            start.bounded(PARAM_LIMIT as int),
            1 <= framerate <= FRAMERATE_LIMIT,
        ensures
            w.wf(),
            w.framerate == framerate,
            w.samples@.len() == spec_wave_len(duration, framerate),
            w.times@.len() == w.samples@.len(),
            forall|i: int|
                0 <= i < w.times@.len() ==> (#[trigger] w.times@[i]).num == start.num * framerate
                    + i * start.den && w.times@[i].den == start.den * framerate,
            forall|i: int|
                0 <= i < w.samples@.len() ==> #[trigger] w.samples@[i] == self.spec_sample(
                    w.times@[i],
                ),
            duration.num <= 0 ==> w.samples@.len() == 0,
    {
        let n = num_samples(duration, framerate);
        let times = sample_times(start, framerate, n);
        let samples = self.evaluate(&times);
        Wave::new(samples, times, framerate)
    }
}

/// A pure sinusoid: `amplitude * kernel(frequency * t + offset)`, where the
/// phase is measured in turns and the kernel is chosen at construction time.
///
/// Sampling is exact and fully specified: the cycle fraction `frequency * t`
/// is computed as an exact rational, reduced modulo one turn and quantized
/// to billionths; the offset is then added exactly and the sum reduced and
/// quantized the same way before the kernel is applied.  Quarter-turn
/// phases, the backbone of every wave on a framerate grid, pass through
/// both quantizations unchanged.
#[derive(Clone, Copy, Debug)]
pub struct Sinusoid {
    /// Frequency in Hz; nonzero.
    pub freq: Rat,
    /// Peak amplitude, in amplitude units.
    pub amp: Rat,
    /// Phase offset, in turns (one turn is a full cycle).
    pub offset: Rat,
    /// The periodic base function applied to the phase.
    pub kernel: Kernel,
}

impl Sinusoid {
    /// Fraction of the current cycle completed at time `t` by the frequency
    /// alone, in billionths of a turn.
    pub open spec fn spec_cycle_fraction(self, t: Rat) -> int {
        let fd = self.freq.den * t.den;
        let m1 = (self.freq.num * t.num) % fd;
        spec_round_div(m1 * SCALE, fd)
    }

    /// The full phase `freq * t + offset`, reduced modulo one turn, in
    /// billionths of a turn.
    pub open spec fn spec_phase(self, t: Rat) -> int {
        let q1 = self.spec_cycle_fraction(t);
        let od = SCALE * self.offset.den;
        let m2 = (q1 * self.offset.den + self.offset.num * SCALE) % od;
        spec_round_div(m2, self.offset.den as int)
    }

    /// Exactly the reciprocal of the frequency.
    pub open spec fn spec_period(self) -> Rat {
        if self.freq.num > 0 {
            Rat { num: self.freq.den, den: self.freq.num }
        } else {
            Rat { num: (-self.freq.den) as i64, den: (-self.freq.num) as i64 }
        }
    }

    /// The amplitude at time `t`: `amp * kernel(phase)`, in billionths.
    pub open spec fn spec_sample_at(self, t: Rat) -> int {
        spec_round_div(
            self.amp.num * spec_kernel(self.kernel, self.spec_phase(t)),
            self.amp.den as int,
        )
    }

    /// A sinusoid from frequency (Hz), amplitude, phase offset (turns) and
    /// kernel.  A zero frequency has no period and is rejected outright.
    pub fn new(freq: Rat, amp: Rat, offset: Rat, kernel: Kernel) -> (r: Result<
        Sinusoid,
        SignalError,
    >)
        requires
            freq.wf(),
            freq.bounded(PARAM_LIMIT as int),
            amp.wf(),
            amp.bounded(PARAM_LIMIT as int),
            offset.wf(),
            offset.bounded(PARAM_LIMIT as int),
        ensures
            r is Err <==> freq.num == 0,
            r matches Err(e) ==> e == SignalError::InvalidFrequency,
            r matches Ok(s) ==> s == (Sinusoid { freq, amp, offset, kernel }) && s.valid(),
    {
        if freq.num == 0 {
            Err(SignalError::InvalidFrequency)
        } else {
            Ok(Sinusoid { freq, amp, offset, kernel })
        }
    }

    /// One sample of this sinusoid, at time `t`.
    pub fn sample_at(&self, t: Rat) -> (s: i128)
        requires
            self.valid(),
            t.wf(),
        ensures
            s == self.spec_sample_at(t),
            -SINGLE_SAMPLE_LIMIT <= s <= SINGLE_SAMPLE_LIMIT,
    {
        proof {
            lemma_sinusoid_sample_bounds(*self, t);
            assert(1 <= self.freq.den * t.den <= 10_000_000_000_000_000_000_000_000int
                && -ROUND_BOUND <= self.freq.num * t.num <= ROUND_BOUND) by (nonlinear_arith)
                requires
                    1 <= self.freq.den <= PARAM_LIMIT,
                    1 <= t.den <= i64::MAX,
                    -PARAM_LIMIT <= self.freq.num <= PARAM_LIMIT,
                    i64::MIN <= t.num <= i64::MAX,
            ;
        }
        let fd = wide_mul(self.freq.den, t.den);
        let m1 = euclid_mod(wide_mul(self.freq.num, t.num), fd);
        let q1 = round_div(m1 * SCALE, fd);
        let od = SCALE * (self.offset.den as i128);
        proof {
            assert(0 <= q1 * self.offset.den <= 1_000_000_000_000_000int) by (nonlinear_arith)
                requires
                    0 <= q1 <= SCALE,
                    1 <= self.offset.den <= PARAM_LIMIT,
            ;
        }
        let m2 = euclid_mod(
            q1 * (self.offset.den as i128) + (self.offset.num as i128) * SCALE,
            od,
        );
        let q2 = round_div(m2, self.offset.den as i128);
        let k = kernel_at(self.kernel, q2);
        proof {
            assert(-SINGLE_SAMPLE_LIMIT <= self.amp.num * k <= SINGLE_SAMPLE_LIMIT)
                by (nonlinear_arith)
                requires
                    -PARAM_LIMIT <= self.amp.num <= PARAM_LIMIT,
                    -SCALE <= k <= SCALE,
            ;
        }
        round_div((self.amp.num as i128) * k, self.amp.den as i128)
    }
}

/// The phase of a valid sinusoid always lies within one turn, and one
/// sinusoid's sample never exceeds its amplitude bound.
pub proof fn lemma_sinusoid_sample_bounds(s: Sinusoid, t: Rat)
    requires
        s.valid(),
        t.wf(),
    ensures
        0 <= s.spec_cycle_fraction(t) <= SCALE,
        0 <= s.spec_phase(t) <= SCALE,
        -SINGLE_SAMPLE_LIMIT <= s.spec_sample_at(t) <= SINGLE_SAMPLE_LIMIT,
{
    let fd = s.freq.den * t.den;
    assert(1 <= fd) by (nonlinear_arith)
        requires
            fd == s.freq.den * t.den,
            s.freq.den >= 1,
            t.den >= 1,
    ;
    let m1 = (s.freq.num * t.num) % fd;
    vstd::arithmetic::div_mod::lemma_mod_bound(s.freq.num * t.num, fd);
    assert(0 <= m1 * SCALE <= SCALE * fd) by (nonlinear_arith)
        requires
            0 <= m1 < fd,
    ;
    lemma_round_div_bound(m1 * SCALE, fd, SCALE as int);
    lemma_round_div_nonneg(m1 * SCALE, fd);
    let q1 = s.spec_cycle_fraction(t);
    let od = SCALE * s.offset.den;
    assert(1 <= od) by (nonlinear_arith)
        requires
            od == SCALE * s.offset.den,
            s.offset.den >= 1,
    ;
    let m2 = (q1 * s.offset.den + s.offset.num * SCALE) % od;
    vstd::arithmetic::div_mod::lemma_mod_bound(q1 * s.offset.den + s.offset.num * SCALE, od);
    assert(0 <= m2 <= SCALE * s.offset.den) by (nonlinear_arith)
        requires
            0 <= m2 < od,
            od == SCALE * s.offset.den,
    ;
    lemma_round_div_bound(m2, s.offset.den as int, SCALE as int);
    lemma_round_div_nonneg(m2, s.offset.den as int);
    let q2 = s.spec_phase(t);
    lemma_kernel_range(s.kernel, q2);
    let k = spec_kernel(s.kernel, q2);
    assert(-(SINGLE_SAMPLE_LIMIT * s.amp.den) <= s.amp.num * k <= SINGLE_SAMPLE_LIMIT * s.amp.den)
        by (nonlinear_arith)
        requires
            -PARAM_LIMIT <= s.amp.num <= PARAM_LIMIT,
            -SCALE <= k <= SCALE,
            s.amp.den >= 1,
    ;
    lemma_round_div_bound(s.amp.num * k, s.amp.den as int, SINGLE_SAMPLE_LIMIT as int);
}

impl Signal for Sinusoid {
    /// A sinusoid is valid when its parameters are bounded and its frequency
    /// is nonzero.
    open spec fn valid(&self) -> bool {
        &&& self.freq.wf() && self.freq.bounded(PARAM_LIMIT as int) && self.freq.num != 0
        &&& self.amp.wf() && self.amp.bounded(PARAM_LIMIT as int)
        &&& self.offset.wf() && self.offset.bounded(PARAM_LIMIT as int)
    }

    open spec fn spec_sample(&self, t: Rat) -> int {
        self.spec_sample_at(t)
    }

    /// Exactly the reciprocal of the frequency.
    fn period(&self) -> (r: Rat)
        ensures
            r == self.spec_period(),
    {
        self.freq.recip()
    }

    fn evaluate(&self, ts: &Vec<Rat>) -> (r: Vec<i128>) {
        let n = ts.len();
        let mut out: Vec<i128> = Vec::new();
        let mut i: usize = 0;
        while i < n
            invariant
                i <= n,
                n == ts@.len(),
                self.valid(),
                forall|k: int| 0 <= k < n ==> (#[trigger] ts@[k]).wf(),
                out@.len() == i,
                forall|j: int| 0 <= j < i ==> #[trigger] out@[j] == self.spec_sample_at(ts@[j]),
                forall|j: int|
                    0 <= j < i ==> -SINGLE_SAMPLE_LIMIT <= #[trigger] out@[j]
                        <= SINGLE_SAMPLE_LIMIT,
            decreases n - i,
        {
            out.push(self.sample_at(ts[i]));
            i = i + 1;
        }
        out
    }
}

impl Sinusoid {
    /// The pairwise sum of this sinusoid and another, as a composite signal
    /// holding both operands in order.
    pub fn add(self, other: Sinusoid) -> (r: SumSignal)
        ensures
            r.components@.len() == 2,
            r.components@[0] == self,
            r.components@[1] == other,
            self.valid() && other.valid() ==> r.valid(),
    {
        let mut components: Vec<Sinusoid> = Vec::new();
        components.push(self);
        components.push(other);
        SumSignal { components }
    }
}

/// The sum of exactly two sinusoids, each owned by value and independently
/// evaluable.
pub struct SumSinusoid(pub Sinusoid, pub Sinusoid);

impl SumSinusoid {
    /// The larger operand period: a plotting hint, exact only when the
    /// operand frequencies share a fundamental.
    pub open spec fn spec_period(self) -> Rat {
        if self.0.spec_period().le_val(self.1.spec_period()) {
            self.1.spec_period()
        } else {
            self.0.spec_period()
        }
    }
}

impl Signal for SumSinusoid {
    open spec fn valid(&self) -> bool {
        self.0.valid() && self.1.valid()
    }

    /// The elementwise sum of the operand samples.
    open spec fn spec_sample(&self, t: Rat) -> int {
        self.0.spec_sample_at(t) + self.1.spec_sample_at(t)
    }

    /// The larger operand period.
    fn period(&self) -> (r: Rat)
        ensures
            r == self.spec_period(),
    {
        let pa = self.0.period();
        let pb = self.1.period();
        if pa.le(pb) {
            pb
        } else {
            pa
        }
    }

    fn evaluate(&self, ts: &Vec<Rat>) -> (r: Vec<i128>) {
        let va = self.0.evaluate(ts);
        let vb = self.1.evaluate(ts);
        proof {
            assert forall|i: int|
                0 <= i < ts@.len() implies -SINGLE_SAMPLE_LIMIT <= #[trigger] va@[i]
                <= SINGLE_SAMPLE_LIMIT by {
                lemma_sinusoid_sample_bounds(self.0, ts@[i]);
            }
            assert forall|i: int|
                0 <= i < ts@.len() implies -SINGLE_SAMPLE_LIMIT <= #[trigger] vb@[i]
                <= SINGLE_SAMPLE_LIMIT by {
                lemma_sinusoid_sample_bounds(self.1, ts@[i]);
            }
        }
        match add_samples(&va, &vb) {
            Ok(c) => c,
            Err(_) => unreached(),
        }
    }
}

/// The amplitude of the ordered operand collection `cs` at time `t`:
/// the sum of each operand's amplitude there.
pub open spec fn spec_sum_samples(cs: Seq<Sinusoid>, t: Rat) -> int
    decreases cs.len(),
{
    if cs.len() == 0 {
        0
    } else {
        spec_sum_samples(cs.drop_last(), t) + cs.last().spec_sample_at(t)
    }
}

/// The largest operand period in `cs`; one tenth of a second — a span that
/// plots a few cycles of many everyday signals — when `cs` is empty.
pub open spec fn spec_max_period(cs: Seq<Sinusoid>) -> Rat
    decreases cs.len(),
{
    if cs.len() == 0 {
        Rat { num: 1, den: 10 }
    } else if cs.len() == 1 {
        cs.last().spec_period()
    } else {
        let rest = spec_max_period(cs.drop_last());
        if rest.le_val(cs.last().spec_period()) {
            cs.last().spec_period()
        } else {
            rest
        }
    }
}

/// The sum of an ordered collection of sinusoids, all evaluated against the
/// same instants and summed elementwise.
pub struct SumSignal {
    /// The operand signals, in order.
    pub components: Vec<Sinusoid>,
}

impl SumSignal {
    /// A composite signal from its ordered operands.
    pub fn new(components: Vec<Sinusoid>) -> (r: SumSignal)
        requires
            components@.len() <= COMPONENT_LIMIT,
        ensures
            r.components@ == components@,
    {
        SumSignal { components }
    }

    /// The largest operand period: a plotting hint, exact only when all
    /// operand frequencies are multiples of a shared fundamental.
    pub open spec fn spec_period(self) -> Rat {
        spec_max_period(self.components@)
    }
}

impl Signal for SumSignal {
    open spec fn valid(&self) -> bool {
        &&& self.components@.len() <= COMPONENT_LIMIT
        &&& forall|i: int| 0 <= i < self.components@.len() ==> (#[trigger] self.components@[i]).valid()
    }

    open spec fn spec_sample(&self, t: Rat) -> int {
        spec_sum_samples(self.components@, t)
    }

    /// The largest operand period.
    fn period(&self) -> (r: Rat)
        ensures
            r == self.spec_period(),
    {
        let n = self.components.len();
        if n == 0 {
            return Rat::new(1, 10);
        }
        let mut best = self.components[0].period();
        proof {
            assert(self.components@.take(1).last() == self.components@[0]);
        }
        let mut i: usize = 1;
        while i < n
            invariant
                1 <= i <= n,
                n == self.components@.len(),
                self.valid(),
                best.wf(),
                best == spec_max_period(self.components@.take(i as int)),
            decreases n - i,
        {
            proof {
                assert(self.components@.take(i + 1).drop_last() =~= self.components@.take(i as int));
                assert(self.components@.take(i + 1).last() == self.components@[i as int]);
            }
            let p = self.components[i].period();
            if best.le(p) {
                best = p;
            }
            i = i + 1;
        }
        proof {
            assert(self.components@.take(n as int) =~= self.components@);
        }
        best
    }

    fn evaluate(&self, ts: &Vec<Rat>) -> (r: Vec<i128>) {
        let n = ts.len();
        let m = self.components.len();
        let mut out: Vec<i128> = Vec::new();
        let mut i: usize = 0;
        while i < n
            invariant
                i <= n,
                n == ts@.len(),
                m == self.components@.len(),
                self.valid(),
                forall|k: int| 0 <= k < n ==> (#[trigger] ts@[k]).wf(),
                out@.len() == i,
                forall|j: int|
                    0 <= j < i ==> #[trigger] out@[j] == spec_sum_samples(
                        self.components@,
                        ts@[j],
                    ),
                forall|j: int| 0 <= j < i ==> -SAMPLE_LIMIT <= #[trigger] out@[j] <= SAMPLE_LIMIT,
            decreases n - i,
        {
            let t = ts[i];
            let mut acc: i128 = 0;
            let mut j: usize = 0;
            while j < m
                invariant
                    j <= m,
                    m == self.components@.len(),
                    m <= COMPONENT_LIMIT,
                    self.valid(),
                    t.wf(),
                    acc == spec_sum_samples(self.components@.take(j as int), t),
                    -(j as int) * SINGLE_SAMPLE_LIMIT <= acc <= (j as int) * SINGLE_SAMPLE_LIMIT,
                decreases m - j,
            {
                proof {
                    assert(self.components@.take(j + 1).drop_last() =~= self.components@.take(
                        j as int,
                    ));
                    assert(self.components@.take(j + 1).last() == self.components@[j as int]);
                }
                let s = self.components[j].sample_at(t);
                acc = acc + s;
                j = j + 1;
            }
            proof {
                assert(self.components@.take(m as int) =~= self.components@);
                assert((m as int) * SINGLE_SAMPLE_LIMIT <= SAMPLE_LIMIT);
            }
            out.push(acc);
            i = i + 1;
        }
        out
    }
}

/// A cosine sinusoid: a `Sinusoid` with the cosine kernel.
#[derive(Clone, Copy)]
pub struct CosSignal(pub Sinusoid);

impl CosSignal {
    /// A cosine signal from frequency (Hz), amplitude and phase offset
    /// (turns); a zero frequency is rejected.
    pub fn new(freq: Rat, amp: Rat, offset: Rat) -> (r: Result<CosSignal, SignalError>)
        requires
            freq.wf(),
            freq.bounded(PARAM_LIMIT as int),
            amp.wf(),
            amp.bounded(PARAM_LIMIT as int),
            offset.wf(),
            offset.bounded(PARAM_LIMIT as int),
        ensures
            r is Err <==> freq.num == 0,
            r matches Err(e) ==> e == SignalError::InvalidFrequency,
            r matches Ok(c) ==> c.0 == (Sinusoid { freq, amp, offset, kernel: Kernel::Cosine })
                && c.0.valid(),
    {
        match Sinusoid::new(freq, amp, offset, Kernel::Cosine) {
            Ok(s) => Ok(CosSignal(s)),
            Err(e) => Err(e),
        }
    }
}

impl From<CosSignal> for Sinusoid {
    /// The underlying sinusoid, unchanged.
    fn from(c: CosSignal) -> (r: Sinusoid) {
        c.0
    }
}

impl vstd::std_specs::convert::FromSpecImpl<CosSignal> for Sinusoid {
    open spec fn obeys_from_spec() -> bool {
        true
    }

    open spec fn from_spec(c: CosSignal) -> Sinusoid {
        c.0
    }
}

/// A sine sinusoid: a `Sinusoid` with the sine kernel.
#[derive(Clone, Copy)]
pub struct SinSignal(pub Sinusoid);

impl SinSignal {
    /// A sine signal from frequency (Hz), amplitude and phase offset
    /// (turns); a zero frequency is rejected.
    pub fn new(freq: Rat, amp: Rat, offset: Rat) -> (r: Result<SinSignal, SignalError>)
        requires
            freq.wf(),
            freq.bounded(PARAM_LIMIT as int),
            amp.wf(),
            amp.bounded(PARAM_LIMIT as int),
            offset.wf(),
            offset.bounded(PARAM_LIMIT as int),
        ensures
            r is Err <==> freq.num == 0,
            r matches Err(e) ==> e == SignalError::InvalidFrequency,
            r matches Ok(s) ==> s.0 == (Sinusoid { freq, amp, offset, kernel: Kernel::Sine })
                && s.0.valid(),
    {
        match Sinusoid::new(freq, amp, offset, Kernel::Sine) {
            Ok(s) => Ok(SinSignal(s)),
            Err(e) => Err(e),
        }
    }

    /// Sample the underlying sinusoid into a wave.
    pub fn make_wave(&self, duration: Rat, start: Rat, framerate: u64) -> (w: Wave)
        requires
            self.0.valid(),
            duration.wf(),
            duration.bounded(PARAM_LIMIT as int),
            start.wf(),
            start.bounded(PARAM_LIMIT as int),
            1 <= framerate <= FRAMERATE_LIMIT,
        ensures
            w.wf(),
            w.framerate == framerate,
            w.samples@.len() == spec_wave_len(duration, framerate),
            w.times@.len() == w.samples@.len(),
            forall|i: int|
                0 <= i < w.times@.len() ==> (#[trigger] w.times@[i]).num == start.num * framerate
                    + i * start.den && w.times@[i].den == start.den * framerate,
            forall|i: int|
                0 <= i < w.samples@.len() ==> #[trigger] w.samples@[i] == self.0.spec_sample(
                    w.times@[i],
                ),
            duration.num <= 0 ==> w.samples@.len() == 0,
    {
        self.0.make_wave(duration, start, framerate)
    }

    /// The period of the underlying sinusoid.
    pub fn period(&self) -> (r: Rat)
        requires
            self.0.valid(),
        ensures
            r.wf(),
            r == self.0.spec_period(),
    {
        self.0.period()
    }
}

impl From<SinSignal> for Sinusoid {
    /// The underlying sinusoid, unchanged.
    fn from(s: SinSignal) -> (r: Sinusoid) {
        s.0
    }
}

impl vstd::std_specs::convert::FromSpecImpl<SinSignal> for Sinusoid {
    open spec fn obeys_from_spec() -> bool {
        true
    }

    open spec fn from_spec(s: SinSignal) -> Sinusoid {
        s.0
    }
}

/// The period of a sinusoid with positive frequency `p/q` is exactly the
/// reciprocal `q/p`.
pub proof fn lemma_period_is_reciprocal(s: Sinusoid)
    requires
        s.valid(),
        s.freq.num > 0,
    ensures
        s.spec_period().num == s.freq.den,
        s.spec_period().den == s.freq.num,
        s.spec_period().is_ratio(s.freq.den as int, s.freq.num as int),
{
}

/// Summing two sinusoids and evaluating at any time-set equals the
/// elementwise sum of evaluating each operand at the same time-set.
pub proof fn lemma_sum_evaluates_elementwise(a: Sinusoid, b: Sinusoid, ts: Seq<Rat>)
    ensures
        forall|i: int|
            0 <= i < ts.len() ==> (SumSinusoid(a, b)).spec_sample(#[trigger] ts[i])
                == a.spec_sample(ts[i]) + b.spec_sample(ts[i]),
{
}

/// The ordered-collection composite of two sinusoids also evaluates to the
/// elementwise sum of its operands' evaluations.
pub proof fn lemma_sum_signal_pair_elementwise(a: Sinusoid, b: Sinusoid, s: SumSignal, ts: Seq<Rat>)
    requires
        s.components@.len() == 2,
        s.components@[0] == a,
        s.components@[1] == b,
    ensures
        forall|i: int|
            0 <= i < ts.len() ==> s.spec_sample(#[trigger] ts[i]) == a.spec_sample(ts[i])
                + b.spec_sample(ts[i]),
{
    assert forall|i: int|
        0 <= i < ts.len() implies s.spec_sample(#[trigger] ts[i]) == a.spec_sample(ts[i])
        + b.spec_sample(ts[i]) by {
        let t = ts[i];
        let cs = s.components@;
        let dl = cs.drop_last();
        assert(dl.len() == 1 && dl.last() == a);
        assert(dl.drop_last() =~= Seq::<Sinusoid>::empty());
        assert(spec_sum_samples(Seq::<Sinusoid>::empty(), t) == 0);
        assert(spec_sum_samples(dl, t) == a.spec_sample_at(t));
        assert(cs.last() == b);
        assert(spec_sum_samples(cs, t) == spec_sum_samples(dl, t) + b.spec_sample_at(t));
    }
}

/// When `duration * framerate` is a whole number of samples, scaling the
/// framerate scales the wave length by exactly the same factor.
pub proof fn lemma_wave_len_scales_with_framerate(duration: Rat, framerate1: u64, framerate2: u64, k: u64)
    requires
        duration.wf(),
        framerate1 >= 1,
        k >= 1,
        framerate2 == k * framerate1,
        duration.num > 0 ==> (duration.num * framerate1) % (duration.den as int) == 0,
    ensures
        spec_wave_len(duration, framerate2) == k * spec_wave_len(duration, framerate1),
{
    if duration.num > 0 {
        let dd = duration.den as int;
        let a1 = duration.num * framerate1;
        vstd::arithmetic::div_mod::lemma_fundamental_div_mod(a1, dd);
        let m = a1 / dd;
        crate::rational::lemma_round_div_exact(m, dd);
        assert(a1 == m * dd);
        assert(spec_round_div(a1, dd) == m);
        assert(duration.num * framerate2 == (k * m) * dd) by (nonlinear_arith)
            requires
                framerate2 == k * framerate1,
                a1 == duration.num * framerate1,
                a1 == m * dd,
        ;
        crate::rational::lemma_round_div_exact(k * m, dd);
    }
}

/// Waves sampled over the same duration and framerate but from different
/// start times have equal length yet unequal time axes, so they are unequal.
pub proof fn lemma_different_start_unequal_waves(
    w1: Wave,
    w2: Wave,
    start1: Rat,
    start2: Rat,
    framerate: u64,
    n: int,
)
    requires
        n >= 1,
        framerate >= 1,
        start1.wf(),
        start2.wf(),
        !start1.eq_val(start2),
        w1.times@.len() == n,
        w2.times@.len() == n,
        w1.times@[0].num == start1.num * framerate,
        w1.times@[0].den == start1.den * framerate,
        w2.times@[0].num == start2.num * framerate,
        w2.times@[0].den == start2.den * framerate,
    ensures
        !w1.spec_wave_eq(w2),
{
    let t1 = w1.times@[0];
    let t2 = w2.times@[0];
    assert(t1.num * t2.den != t2.num * t1.den) by (nonlinear_arith)
        requires
            t1.num == start1.num * framerate,
            t1.den == start1.den * framerate,
            t2.num == start2.num * framerate,
            t2.den == start2.den * framerate,
            framerate >= 1,
            start1.num * start2.den != start2.num * start1.den,
    ;
    assert(!t1.eq_val(t2));
}

} // verus!
