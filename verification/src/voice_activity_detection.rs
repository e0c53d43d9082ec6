//! Adaptive dual-threshold voice activity detection.
//!
//! Amplitudes are fixed-point samples (`i32`); a frame is one `Vec<i32>`.
//! Rates and threshold fractions are carried in parts per thousand
//! (per-mille), so a zero-crossing threshold of `100` stands for the
//! fraction `0.1`. Energies are the mean of squared amplitudes, rounded
//! down, which always fits in a `u64`.

use vstd::prelude::*;

verus! {

/// Error of the detector: the one malformed input it rejects.
#[derive(Debug, Clone, Copy, PartialEq, Eq, Structural)]
pub enum VadError {
    /// The frame was degenerate (empty), so no rate or energy is defined.
    InvalidInput,
}

/// Number of adjacent sample pairs whose product is non-positive (a sign
/// change, or a touch of zero), over the whole frame.
pub open spec fn crossings(s: Seq<i32>) -> nat
    decreases s.len(),
{
    if s.len() < 2 {
        0
    } else {
        crossings(s.drop_last()) + if (s[s.len() - 2] as int) * (s[s.len() - 1] as int) <= 0 {
            1nat
        } else {
            0nat
        }
    }
}

/// Sum of the squared amplitudes of a frame.
pub open spec fn sum_squares(s: Seq<i32>) -> int
    decreases s.len(),
{
    if s.len() == 0 {
        0
    } else {
        sum_squares(s.drop_last()) + (s.last() as int) * (s.last() as int)
    }
}

/// Short-time energy of a frame: the mean of the squared amplitudes,
/// rounded down.
pub open spec fn spec_short_time_energy(s: Seq<i32>) -> int {
    sum_squares(s) / (s.len() as int)
}

/// Energy level interpolated between the running minimum and maximum,
/// with the interpolation fraction in per-mille.
pub open spec fn dynamic_threshold(ste_min: int, ste_max: int, ste_threshold: int) -> int {
    ste_min + (ste_max - ste_min) * ste_threshold / 1000
}

/// The dual-threshold activity decision. The zero-crossing rate is the
/// fraction `crossings / pairs`; it is compared against a per-mille
/// threshold by cross-multiplication, so a frame with no pairs (a single
/// sample) counts as failing both rate comparisons.
pub open spec fn spec_voice_activity_decision(
    is_prev_frame_active: bool,
    zero_crossings: int,
    pairs: int,
    ste: int,
    zcr_threshold_low: int,
    zcr_threshold_high: int,
    ste_min: int,
    ste_max: int,
    ste_threshold: int,
) -> bool {
    let dyn_t = dynamic_threshold(ste_min, ste_max, ste_threshold);
    if is_prev_frame_active {
        zero_crossings * 1000 < zcr_threshold_high * pairs || ste > dyn_t
    } else {
        zero_crossings * 1000 < zcr_threshold_low * pairs && ste > dyn_t
    }
}

/// Mathematical model of a detector: thresholds and calibration state.
pub ghost struct VadModel {
    pub zcr_threshold_low: int,
    pub zcr_threshold_high: int,
    pub ste_threshold: int,
    pub ste_min: int,
    pub ste_max: int,
    pub last_active_ste: int,
    pub is_prev_frame_active: bool,
}

/// First half of a detection step: widen the running energy range to
/// cover the new frame's energy, and when a new minimum is set, raise the
/// last-active-energy floor to at least the current dynamic threshold.
pub open spec fn step_calibrate(m: VadModel, ste: int) -> VadModel {
    let m1 = if ste > m.ste_max {
        VadModel { ste_max: ste, ..m }
    } else {
        m
    };
    if ste < m1.ste_min {
        let m2 = VadModel { ste_min: ste, ..m1 };
        if m2.last_active_ste < m2.ste_min {
            VadModel {
                last_active_ste: dynamic_threshold(m2.ste_min, m2.ste_max, m2.ste_threshold),
                ..m2
            }
        } else {
            m2
        }
    } else {
        m1
    }
}

/// Second half of a detection step: record the decision, and on an
/// inactive frame decay the energy range toward the last active energy.
pub open spec fn step_recalibrate(m: VadModel, ste: int, active: bool) -> VadModel {
    let m1 = VadModel { is_prev_frame_active: active, ..m };
    if active {
        VadModel { last_active_ste: ste, ..m1 }
    } else {
        let m2 = VadModel {
            ste_min: m1.ste_min + (m1.last_active_ste - m1.ste_min) / 1000,
            ..m1
        };
        if dynamic_threshold(m2.ste_min, m2.ste_max, m2.ste_threshold) > m2.last_active_ste {
            VadModel {
                ste_max: m2.ste_max - (m2.ste_max - m2.last_active_ste) / 100,
                ..m2
            }
        } else {
            m2
        }
    }
}

/// One whole detection step on a non-empty frame: the successor state and
/// the activity flag returned for the frame.
pub open spec fn step(m: VadModel, frame: Seq<i32>) -> (VadModel, bool) {
    let zc = crossings(frame) as int;
    let pairs = frame.len() as int - 1;
    let ste = spec_short_time_energy(frame);
    let m1 = step_calibrate(m, ste);
    let active = spec_voice_activity_decision(
        m1.is_prev_frame_active,
        zc,
        pairs,
        ste,
        m1.zcr_threshold_low,
        m1.zcr_threshold_high,
        m1.ste_min,
        m1.ste_max,
        m1.ste_threshold,
    );
    (step_recalibrate(m1, ste, active), active)
}

/// The sequence of activity flags a detector returns over a sequence of
/// non-empty frames.
pub open spec fn run(m: VadModel, frames: Seq<Seq<i32>>) -> Seq<bool>
    decreases frames.len(),
{
    if frames.len() == 0 {
        Seq::empty()
    } else {
        seq![step(m, frames[0]).1] + run(step(m, frames[0]).0, frames.drop_first())
    }
}

/// Zero-crossing statistic of a frame: how many of the `len - 1` adjacent
/// pairs have a non-positive product, together with the number of pairs.
/// The zero-crossing rate is the quotient of the two.
pub fn zero_crossing_rate(samples: &Vec<i32>) -> (r: (usize, usize))
    ensures
        r.0 as nat == crossings(samples@),
        r.1 as int == if samples@.len() == 0 { 0int } else { samples@.len() - 1 },
        r.0 <= r.1,
{
    let n = samples.len();
    if n == 0 {
        return (0, 0);
    }
    let mut count: usize = 0;
    let mut i: usize = 1;
    while i < n
        invariant
            1 <= i <= n,
            n == samples@.len(),
            count as nat == crossings(samples@.take(i as int)),
            count <= i - 1,
        decreases n - i,
    {
        let prev = samples[i - 1];
        let cur = samples[i];
        proof {
            assert((prev as int) * (cur as int) <= 0x4000_0000_0000_0000
                && (prev as int) * (cur as int) >= -0x4000_0000_0000_0000) by (nonlinear_arith)
                requires
                    -0x8000_0000 <= prev as int <= 0x7fff_ffff,
                    -0x8000_0000 <= cur as int <= 0x7fff_ffff,
            ;
        }
        if (prev as i64) * (cur as i64) <= 0 {
            count = count + 1;
        }
        proof {
            let pre = samples@.take(i as int);
            let ext = samples@.take(i + 1 as int);
            assert(ext.drop_last() =~= pre);
            assert(ext[ext.len() - 2] == samples@[i - 1]);
            assert(ext[ext.len() - 1] == samples@[i as int]);
        }
        i = i + 1;
    }
    proof {
        assert(samples@.take(n as int) =~= samples@);
    }
    (count, n - 1)
}

/// Short-time energy of a non-empty frame: the mean of the squared
/// amplitudes, rounded down. Bounded by the largest square of an `i32`.
pub fn short_time_energy(samples: &Vec<i32>) -> (r: u64)
    requires
        samples@.len() >= 1,
    ensures
        r as int == spec_short_time_energy(samples@),
        r <= 0x4000_0000_0000_0000,
{
    let n = samples.len();
    let mut sum: u128 = 0;
    let mut i: usize = 0;
    while i < n
        invariant
            0 <= i <= n,
            n == samples@.len(),
            sum as int == sum_squares(samples@.take(i as int)),
            sum as int <= (i as int) * 0x4000_0000_0000_0000,
        decreases n - i,
    {
        let s = samples[i] as i64;
        proof {
            assert(s * s <= 0x4000_0000_0000_0000 && s * s >= 0) by (nonlinear_arith)
                requires
                    -0x8000_0000 <= s <= 0x7fff_ffff,
            ;
            let ext = samples@.take(i + 1 as int);
            assert(ext.drop_last() =~= samples@.take(i as int));
            assert(ext.last() == samples@[i as int]);
        }
        let sq = (s * s) as u128;
        sum = sum + sq;
        i = i + 1;
    }
    proof {
        assert(samples@.take(n as int) =~= samples@);
        vstd::arithmetic::div_mod::lemma_div_is_ordered(
            sum as int,
            (n as int) * 0x4000_0000_0000_0000,
            n as int,
        );
        vstd::arithmetic::div_mod::lemma_div_by_multiple(0x4000_0000_0000_0000, n as int);
        vstd::arithmetic::div_mod::lemma_div_pos_is_pos(sum as int, n as int);
    }
    (sum / (n as u128)) as u64
}

/// The dynamic energy threshold, interpolated between the running minimum
/// and maximum with a per-mille fraction.
fn dynamic_threshold_exec(ste_min: u64, ste_max: u64, ste_threshold: u32) -> (r: u64)
    requires
        ste_min <= ste_max,
        ste_threshold <= 1000,
    ensures
        r as int == dynamic_threshold(ste_min as int, ste_max as int, ste_threshold as int),
        ste_min <= r <= ste_max,
{
    let d = (ste_max - ste_min) as u128;
    proof {
        vstd::arithmetic::mul::lemma_mul_inequality(
            ste_threshold as int,
            1000,
            d as int,
        );
        vstd::arithmetic::div_mod::lemma_div_is_ordered(
            (d as int) * (ste_threshold as int),
            (d as int) * 1000,
            1000,
        );
        vstd::arithmetic::div_mod::lemma_div_by_multiple(d as int, 1000);
        vstd::arithmetic::div_mod::lemma_div_pos_is_pos((d as int) * (ste_threshold as int), 1000);
        vstd::arithmetic::mul::lemma_mul_nonnegative(d as int, ste_threshold as int);
    }
    let scaled = (d * (ste_threshold as u128)) / 1000;
    ste_min + (scaled as u64)
}

/// The dual-threshold activity decision on precomputed statistics, as the
/// detector applies it after calibration. The zero-crossing comparison is
/// done by cross-multiplication: `zero_crossings / pairs < t / 1000`
/// exactly when `zero_crossings * 1000 < t * pairs` for a frame with at
/// least one pair; a frame with no pairs fails both comparisons.
pub fn voice_activity_detection(
    is_prev_frame_active: bool,
    zero_crossings: usize,
    pairs: usize,
    ste: u64,
    zcr_threshold_low: u32,
    zcr_threshold_high: u32,
    ste_min: u64,
    ste_max: u64,
    ste_threshold: u32,
) -> (r: bool)
    requires
        ste_min <= ste_max,
        zcr_threshold_low <= 1000,
        zcr_threshold_high <= 1000,
        ste_threshold <= 1000,
    ensures
        r == spec_voice_activity_decision(
            is_prev_frame_active,
            zero_crossings as int,
            pairs as int,
            ste as int,
            zcr_threshold_low as int,
            zcr_threshold_high as int,
            ste_min as int,
            ste_max as int,
            ste_threshold as int,
        ),
{
    let dyn_t = dynamic_threshold_exec(ste_min, ste_max, ste_threshold);
    proof {
        assert((zcr_threshold_high as int) * (pairs as int)
            <= 1000 * 0xffff_ffff_ffff_ffff) by (nonlinear_arith)
            requires
                0 <= zcr_threshold_high as int <= 1000,
                0 <= pairs as int <= 0xffff_ffff_ffff_ffff,
        ;
        assert((zcr_threshold_low as int) * (pairs as int)
            <= 1000 * 0xffff_ffff_ffff_ffff) by (nonlinear_arith)
            requires
                0 <= zcr_threshold_low as int <= 1000,
                0 <= pairs as int <= 0xffff_ffff_ffff_ffff,
        ;
    }
    let zc_scaled = (zero_crossings as u128) * 1000;
    if is_prev_frame_active {
        zc_scaled < (zcr_threshold_high as u128) * (pairs as u128) || ste > dyn_t
    } else {
        zc_scaled < (zcr_threshold_low as u128) * (pairs as u128) && ste > dyn_t
    }
}

/// Stateful per-stream classifier. One instance serves one sample stream,
/// called sequentially; it recalibrates its energy range on every frame.
pub struct VoiceActivityDetector {
    zcr_threshold_low: u32,
    zcr_threshold_high: u32,
    ste_threshold: u32,
    ste_min: u64,
    ste_max: u64,
    last_active_ste: u64,
    is_prev_frame_active: bool,
}

impl View for VoiceActivityDetector {
    type V = VadModel;

    closed spec fn view(&self) -> VadModel {
        VadModel {
            zcr_threshold_low: self.zcr_threshold_low as int,
            zcr_threshold_high: self.zcr_threshold_high as int,
            ste_threshold: self.ste_threshold as int,
            ste_min: self.ste_min as int,
            ste_max: self.ste_max as int,
            last_active_ste: self.last_active_ste as int,
            is_prev_frame_active: self.is_prev_frame_active,
        }
    }
}

impl VoiceActivityDetector {
    /// A detector that has not yet seen a frame: the energy range is the
    /// unobserved `[u64::MAX, 0]`, so the first frame sets both ends.
    pub open spec fn fresh(self) -> bool {
        &&& self@.ste_min == u64::MAX
        &&& self@.ste_max == 0
        &&& self@.last_active_ste == 0
        &&& !self@.is_prev_frame_active
    }

    /// Well-formedness: thresholds are per-mille fractions, and once a
    /// frame has been seen the calibration state is ordered as
    /// `ste_min <= last_active_ste <= ste_max`.
    pub open spec fn wf(self) -> bool {
        &&& self@.zcr_threshold_low <= 1000
        &&& self@.zcr_threshold_high <= 1000
        &&& self@.ste_threshold <= 1000
        &&& (self.fresh() || (self@.ste_min <= self@.last_active_ste
            && self@.last_active_ste <= self@.ste_max))
    }

    /// A fresh detector with the given per-mille thresholds.
    pub fn new(zcr_threshold_low: u32, zcr_threshold_high: u32, ste_threshold: u32) -> (r: Self)
        requires
            zcr_threshold_low <= 1000,
            zcr_threshold_high <= 1000,
            ste_threshold <= 1000,
        ensures
            r.wf(),
            r.fresh(),
            r@.zcr_threshold_low == zcr_threshold_low as int,
            r@.zcr_threshold_high == zcr_threshold_high as int,
            r@.ste_threshold == ste_threshold as int,
    {
        VoiceActivityDetector {
            zcr_threshold_low,
            zcr_threshold_high,
            ste_threshold,
            ste_min: u64::MAX,
            ste_max: 0,
            last_active_ste: 0,
            is_prev_frame_active: false,
        }
    }

    /// Classify one frame as speech or silence, recalibrating the energy
    /// range. Rejects an empty frame and is otherwise a pure function of
    /// the previous state and the frame, as [`step`] states.
    pub fn detect(&mut self, samples: &Vec<i32>) -> (r: Result<bool, VadError>)
        requires
            old(self).wf(),
        ensures
            final(self).wf(),
            r is Err <==> samples@.len() == 0,
            samples@.len() == 0 ==> r == Err::<bool, VadError>(VadError::InvalidInput)
                && *final(self) == *old(self),
            samples@.len() > 0 ==> r == Ok::<bool, VadError>(step(old(self)@, samples@).1)
                && final(self)@ == step(old(self)@, samples@).0,
            samples@.len() > 0 ==> final(self)@.ste_min <= final(self)@.ste_max,
            final(self)@.zcr_threshold_low == old(self)@.zcr_threshold_low,
            final(self)@.zcr_threshold_high == old(self)@.zcr_threshold_high,
            final(self)@.ste_threshold == old(self)@.ste_threshold,
    {
        if samples.len() == 0 {
            return Err(VadError::InvalidInput);
        }
        let (zero_crossings, pairs) = zero_crossing_rate(samples);
        let ste = short_time_energy(samples);
        if ste > self.ste_max {
            self.ste_max = ste;
        }
        if ste < self.ste_min {
            self.ste_min = ste;
            if self.last_active_ste < self.ste_min {
                self.last_active_ste = dynamic_threshold_exec(
                    self.ste_min,
                    self.ste_max,
                    self.ste_threshold,
                );
            }
        }
        proof {
            assert(self@ == step_calibrate(old(self)@, ste as int));
            assert(self@.ste_min <= self@.last_active_ste <= self@.ste_max);
        }
        let active = voice_activity_detection(
            self.is_prev_frame_active,
            zero_crossings,
            pairs,
            ste,
            self.zcr_threshold_low,
            self.zcr_threshold_high,
            self.ste_min,
            self.ste_max,
            self.ste_threshold,
        );
        self.is_prev_frame_active = active;
        if active {
            self.last_active_ste = ste;
        } else {
            proof {
                vstd::arithmetic::div_mod::lemma_div_pos_is_pos(
                    self@.last_active_ste - self@.ste_min,
                    1000,
                );
                vstd::arithmetic::div_mod::lemma_div_is_ordered(
                    self@.last_active_ste - self@.ste_min,
                    1000 * (self@.last_active_ste - self@.ste_min),
                    1000,
                );
                vstd::arithmetic::div_mod::lemma_div_by_multiple(
                    self@.last_active_ste - self@.ste_min,
                    1000,
                );
                vstd::arithmetic::mul::lemma_mul_inequality(
                    1,
                    1000,
                    self@.last_active_ste - self@.ste_min,
                );
            }
            let delta = (self.last_active_ste - self.ste_min) / 1000;
            self.ste_min = self.ste_min + delta;
            let dyn_t = dynamic_threshold_exec(self.ste_min, self.ste_max, self.ste_threshold);
            if dyn_t > self.last_active_ste {
                proof {
                    vstd::arithmetic::div_mod::lemma_div_pos_is_pos(
                        self@.ste_max - self@.last_active_ste,
                        100,
                    );
                    vstd::arithmetic::div_mod::lemma_div_is_ordered(
                        self@.ste_max - self@.last_active_ste,
                        100 * (self@.ste_max - self@.last_active_ste),
                        100,
                    );
                    vstd::arithmetic::div_mod::lemma_div_by_multiple(
                        self@.ste_max - self@.last_active_ste,
                        100,
                    );
                    vstd::arithmetic::mul::lemma_mul_inequality(
                        1,
                        100,
                        self@.ste_max - self@.last_active_ste,
                    );
                }
                let dec = (self.ste_max - self.last_active_ste) / 100;
                self.ste_max = self.ste_max - dec;
            }
        }
        Ok(active)
    }
}

impl Default for VoiceActivityDetector {
    /// The default thresholds: a zero-crossing entry threshold of `0.1`,
    /// an exit threshold of `0.3`, and an energy interpolation fraction
    /// of `0.1`, all in per-mille.
    fn default() -> (r: Self)
        ensures
            r.wf(),
            r.fresh(),
            r@.zcr_threshold_low == 100,
            r@.zcr_threshold_high == 300,
            r@.ste_threshold == 100,
    {
        VoiceActivityDetector::new(100, 300, 100)
    }
}

/// The signed amplitude of one little-endian 16-bit PCM sample.
pub open spec fn spec_pcm16_sample(lo: u8, hi: u8) -> int {
    let raw = lo + 256 * hi;
    if raw >= 32768 {
        raw - 65536
    } else {
        raw
    }
}

/// Decode little-endian 16-bit PCM bytes into detector samples, one per
/// complete byte pair; a trailing odd byte is dropped.
pub fn pcm16le_to_samples(bytes: &[u8]) -> (r: Vec<i32>)
    ensures
        r@.len() == bytes@.len() / 2,
        forall|i: int|
            0 <= i < r@.len() ==> r@[i] as int == spec_pcm16_sample(
                bytes@[2 * i],
                bytes@[2 * i + 1],
            ),
{
    let n = bytes.len() / 2;
    let mut out: Vec<i32> = Vec::new();
    let mut i: usize = 0;
    while i < n
        invariant
            0 <= i <= n,
            n == bytes@.len() / 2,
            bytes@.len() <= usize::MAX,
            out@.len() == i,
            forall|j: int|
                0 <= j < i ==> out@[j] as int == spec_pcm16_sample(
                    bytes@[2 * j],
                    bytes@[2 * j + 1],
                ),
        decreases n - i,
    {
        proof {
            vstd::arithmetic::div_mod::lemma_fundamental_div_mod(bytes@.len() as int, 2);
            vstd::arithmetic::div_mod::lemma_mod_bound(bytes@.len() as int, 2);
            assert(2 * (i as int) + 1 < bytes@.len());
        }
        let lo = bytes[2 * i] as u32;
        let hi = bytes[2 * i + 1] as u32;
        let raw: u32 = lo + hi * 256;
        let value: i32 = if raw >= 32768 {
            (raw as i32) - 65536
        } else {
            raw as i32
        };
        out.push(value);
        i = i + 1;
    }
    out
}

/// The number of samples one channel contributes to an interleaved
/// stream of the given length.
pub open spec fn spec_channel_count(len: int, channels: int, channel: int) -> int {
    if len > channel {
        (len - channel - 1) / channels + 1
    } else {
        0
    }
}

/// One channel of an interleaved multi-channel sample stream: the samples
/// at positions `channel`, `channel + channels`, and so on.
pub fn take_channel(samples: &[i32], channels: usize, channel: usize) -> (r: Vec<i32>)
    requires
        1 <= channels,
        channel < channels,
    ensures
        r@.len() == spec_channel_count(samples@.len() as int, channels as int, channel as int),
        forall|j: int|
            0 <= j < r@.len() ==> r@[j] == samples@[j * (channels as int) + channel],
{
    let len = samples.len();
    if len <= channel {
        return Vec::new();
    }
    let count = (len - channel - 1) / channels + 1;
    let mut out: Vec<i32> = Vec::new();
    let mut k: usize = 0;
    while k < count
        invariant
            0 <= k <= count,
            1 <= channels,
            channel < channels,
            len == samples@.len(),
            len > channel,
            count == (len - channel - 1) as int / (channels as int) + 1,
            out@.len() == k,
            forall|j: int|
                0 <= j < k ==> out@[j] == samples@[j * (channels as int) + channel],
        decreases count - k,
    {
        proof {
            let q = (len - channel - 1) as int / (channels as int);
            vstd::arithmetic::div_mod::lemma_fundamental_div_mod(
                (len - channel - 1) as int,
                channels as int,
            );
            vstd::arithmetic::div_mod::lemma_mod_bound((len - channel - 1) as int, channels as int);
            assert((channels as int) * q <= (len - channel - 1) as int);
            vstd::arithmetic::mul::lemma_mul_inequality(k as int, q, channels as int);
            assert(q * (channels as int) == (channels as int) * q) by (nonlinear_arith);
            assert((k as int) * (channels as int) + channel < len);
        }
        let idx = k * channels + channel;
        out.push(samples[idx]);
        k = k + 1;
    }
    out
}

/// LAW (constant sign): a frame whose samples all have the same strict
/// sign has no zero crossings, so its zero-crossing rate is zero.
pub proof fn lemma_constant_sign_zero_crossings(s: Seq<i32>)
    requires
        (forall|i: int| 0 <= i < s.len() ==> s[i] > 0) || (forall|i: int|
            0 <= i < s.len() ==> s[i] < 0),
    ensures
        crossings(s) == 0,
    decreases s.len(),
{
    if s.len() >= 2 {
        assert(forall|i: int| 0 <= i < s.drop_last().len() ==> s.drop_last()[i] == s[i]);
        lemma_constant_sign_zero_crossings(s.drop_last());
        let a = s[s.len() - 2] as int;
        let b = s[s.len() - 1] as int;
        assert(a * b > 0) by (nonlinear_arith)
            requires
                (a > 0 && b > 0) || (a < 0 && b < 0),
        ;
    }
}

/// LAW (strict alternation): a frame in which every adjacent pair has a
/// strictly negative product crosses zero at every one of its `len - 1`
/// pairs, so its zero-crossing rate is one.
pub proof fn lemma_alternating_full_crossings(s: Seq<i32>)
    requires
        forall|i: int| 0 <= i < s.len() - 1 ==> (#[trigger] s[i] as int) * (s[i + 1] as int) < 0,
    ensures
        s.len() >= 1 ==> crossings(s) == s.len() - 1,
        s.len() == 0 ==> crossings(s) == 0,
    decreases s.len(),
{
    if s.len() >= 2 {
        assert(forall|i: int| 0 <= i < s.drop_last().len() - 1
            ==> (#[trigger] s.drop_last()[i] as int) * (s.drop_last()[i + 1] as int) < 0);
        lemma_alternating_full_crossings(s.drop_last());
    }
}

/// Sum of squares of a constant frame: `len` times the square.
pub proof fn lemma_sum_squares_constant(s: Seq<i32>, a: i32)
    requires
        forall|i: int| 0 <= i < s.len() ==> s[i] == a,
    ensures
        sum_squares(s) == s.len() * ((a as int) * (a as int)),
    decreases s.len(),
{
    let sq = (a as int) * (a as int);
    if s.len() == 0 {
        assert(s.len() * sq == 0) by (nonlinear_arith)
            requires
                s.len() == 0,
        ;
    } else {
        assert(forall|i: int| 0 <= i < s.drop_last().len() ==> s.drop_last()[i] == a);
        lemma_sum_squares_constant(s.drop_last(), a);
        assert((s.len() - 1) * sq + sq == s.len() * sq) by (nonlinear_arith);
    }
}

/// LAW (energy of simple frames): an all-zero frame has short-time energy
/// zero, and a constant frame of amplitude `a` has short-time energy
/// exactly `a * a`.
pub proof fn lemma_short_time_energy_constant(s: Seq<i32>, a: i32)
    requires
        s.len() >= 1,
        forall|i: int| 0 <= i < s.len() ==> s[i] == a,
    ensures
        spec_short_time_energy(s) == (a as int) * (a as int),
        a == 0 ==> spec_short_time_energy(s) == 0,
{
    let sq = (a as int) * (a as int);
    lemma_sum_squares_constant(s, a);
    vstd::arithmetic::div_mod::lemma_div_multiples_vanish(sq, s.len() as int);
    assert(s.len() * sq == (s.len() as int) * sq);
}

/// LAW (determinism): the activity flags a detector returns are a pure
/// function of its starting state and the frame sequence; two detectors
/// that start equal and see the same frames return the same flags. The
/// contract of [`VoiceActivityDetector::detect`] ties each call to
/// [`step`], so this holds of the executable detector as well.
pub proof fn lemma_detect_deterministic(m1: VadModel, m2: VadModel, frames: Seq<Seq<i32>>)
    requires
        m1 == m2,
    ensures
        run(m1, frames) == run(m2, frames),
{
}

/// LAW (hysteresis): on a frame whose zero-crossing rate lies between the
/// low and the high threshold and whose energy is above the dynamic
/// threshold, a previously active detector stays active, while the same
/// frame would not activate a previously inactive detector.
pub proof fn lemma_hysteresis(
    zero_crossings: int,
    pairs: int,
    ste: int,
    zcr_threshold_low: int,
    zcr_threshold_high: int,
    ste_min: int,
    ste_max: int,
    ste_threshold: int,
)
    requires
        zcr_threshold_low * pairs <= zero_crossings * 1000 < zcr_threshold_high * pairs,
        ste > dynamic_threshold(ste_min, ste_max, ste_threshold),
    ensures
        spec_voice_activity_decision(
            true,
            zero_crossings,
            pairs,
            ste,
            zcr_threshold_low,
            zcr_threshold_high,
            ste_min,
            ste_max,
            ste_threshold,
        ),
        !spec_voice_activity_decision(
            false,
            zero_crossings,
            pairs,
            ste,
            zcr_threshold_low,
            zcr_threshold_high,
            ste_min,
            ste_max,
            ste_threshold,
        ),
{
}

} // verus!
