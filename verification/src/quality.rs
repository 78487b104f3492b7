//! Per-chunk quality metrics: clipping, voice activity and the heuristic
//! signal-to-noise estimate.

use vstd::prelude::*;
use vstd::slice::slice_subrange;
use crate::vad::{classify_frame, detector_for_rate, supported_rate};

verus! {

/// Magnitude at which a 16-bit sample counts as clipped: full scale.
pub const FULL_SCALE: i16 = 32767;

/// One hundred percent, in thousandths of a percent.
pub const FULL_PCT: u32 = 100_000;

/// The assumed noise floor, in thousandths of a decibel.
pub const NOISE_FLOOR: i64 = -60_000;

/// Quality metrics of a chunk or of a whole recording.
///
/// All three fields are fixed-point numbers in thousandths.
#[derive(Clone, Copy, Debug, PartialEq, Eq)]
pub struct QcMetrics {
    /// Signal-to-noise estimate, in thousandths of a decibel.
    pub snr_db: i64,
    /// Share of clipped samples, in thousandths of a percent.
    pub clipping_pct: u32,
    /// Share of frames classified as speech, in thousandths of a percent.
    pub vad_ratio: u32,
}

impl QcMetrics {
    /// Both percentages lie between 0 and 100.
    pub open spec fn wf(&self) -> bool {
        self.clipping_pct <= FULL_PCT && self.vad_ratio <= FULL_PCT
    }
}

/// Whether a sample sits at or beyond full scale.
pub open spec fn is_clipped(sample: i16) -> bool {
    sample >= FULL_SCALE || sample <= -FULL_SCALE
}

/// How many samples of `s` are clipped.
pub open spec fn clipped_count(s: Seq<i16>) -> nat
    decreases s.len(),
{
    if s.len() == 0 {
        0
    } else {
        clipped_count(s.drop_last()) + if is_clipped(s.last()) {
            1nat
        } else {
            0nat
        }
    }
}

/// Clipping percentage of a chunk: 100 times the clipped samples over the
/// chunk length, in thousandths of a percent, rounded down.
pub open spec fn clipping_pct_of(s: Seq<i16>) -> int {
    (FULL_PCT * clipped_count(s)) / (s.len() as int)
}

/// A chunk without a clipped sample has a clipping percentage of 0: so
/// has a chunk of silence.
pub proof fn lemma_clean_chunk(s: Seq<i16>)
    requires
        s.len() > 0,
        forall|i: int| 0 <= i < s.len() ==> !is_clipped(#[trigger] s[i]),
    ensures
        clipped_count(s) == 0,
        clipping_pct_of(s) == 0,
    decreases s.len(),
{
    let rest = s.drop_last();
    assert(!is_clipped(s[s.len() - 1]));
    if rest.len() > 0 {
        assert forall|i: int| 0 <= i < rest.len() implies !is_clipped(#[trigger] rest[i]) by {
            assert(rest[i] == s[i]);
        }
        lemma_clean_chunk(rest);
    }
}

/// A chunk of which every sample is clipped has a clipping percentage of
/// 100: so has a chunk at full scale throughout, whatever the signs.
pub proof fn lemma_saturated_chunk(s: Seq<i16>)
    requires
        s.len() > 0,
        forall|i: int| 0 <= i < s.len() ==> is_clipped(#[trigger] s[i]),
    ensures
        clipped_count(s) == s.len(),
        clipping_pct_of(s) == FULL_PCT,
    decreases s.len(),
{
    let rest = s.drop_last();
    assert(is_clipped(s[s.len() - 1]));
    if rest.len() > 0 {
        assert forall|i: int| 0 <= i < rest.len() implies is_clipped(#[trigger] rest[i]) by {
            assert(rest[i] == s[i]);
        }
        lemma_saturated_chunk(rest);
    } else {
        assert(clipped_count(rest) == 0);
    }
    let n = s.len() as int;
    assert((FULL_PCT * n) / n == FULL_PCT) by (nonlinear_arith)
        requires
            n > 0,
    ;
}

/// Clipping percentage of a non-empty chunk.
pub fn detect_clipping(samples: &[i16]) -> (pct: u32)
    requires
        samples@.len() > 0,
    ensures
        pct == clipping_pct_of(samples@),
        pct <= FULL_PCT,
{
    let n: usize = samples.len();
    let mut clipped: usize = 0;
    let mut i: usize = 0;
    while i < n
        invariant
            n == samples@.len(),
            i <= n,
            clipped == clipped_count(samples@.take(i as int)),
            clipped <= i,
        decreases n - i,
    {
        assert(samples@.take(i as int + 1).drop_last() =~= samples@.take(i as int));
        if samples[i] >= FULL_SCALE || samples[i] <= -FULL_SCALE {
            clipped = clipped + 1;
        }
        i = i + 1;
    }
    assert(samples@.take(n as int) =~= samples@);
    let scaled: u128 = (clipped as u128) * (FULL_PCT as u128);
    let pct: u128 = scaled / (n as u128);
    assert(pct <= FULL_PCT) by (nonlinear_arith)
        requires
            pct == (clipped * FULL_PCT) / (n as int),
            0 <= clipped <= n,
            n > 0,
    ;
    pct as u32
}

/// Sum of the squared samples of `s`.
pub open spec fn sum_squares(s: Seq<i16>) -> nat
    decreases s.len(),
{
    if s.len() == 0 {
        0
    } else {
        sum_squares(s.drop_last()) + (s.last() as int * s.last() as int) as nat
    }
}

/// Whether the root mean square of `s`, as a fraction of full scale, is above
/// `per_mille` thousandths: the comparison is made on the squares, so it is
/// exact.
pub open spec fn rms_above(s: Seq<i16>, per_mille: nat) -> bool {
    sum_squares(s) * 1_000_000 > per_mille * per_mille * (FULL_SCALE as int * FULL_SCALE as int)
        * s.len()
}

proof fn lemma_square_bound(x: i16)
    ensures
        0 <= x as int * x as int <= 0x4000_0000,
{
    assert(0 <= x as int * x as int <= 0x4000_0000) by (nonlinear_arith)
        requires
            -0x8000 <= x as int <= 0x7fff,
    ;
}

/// Sum of the squared samples of a chunk.
pub fn sum_of_squares(samples: &[i16]) -> (sum: u128)
    ensures
        sum == sum_squares(samples@),
        sum <= samples@.len() * 0x4000_0000,
{
    let n: usize = samples.len();
    let mut sum: u128 = 0;
    let mut i: usize = 0;
    while i < n
        invariant
            n == samples@.len(),
            i <= n,
            sum == sum_squares(samples@.take(i as int)),
            sum <= i * 0x4000_0000,
        decreases n - i,
    {
        assert(samples@.take(i as int + 1).drop_last() =~= samples@.take(i as int));
        let x: i64 = samples[i] as i64;
        proof {
            lemma_square_bound(samples[i as int]);
        }
        let square: i64 = x * x;
        sum = sum + square as u128;
        i = i + 1;
    }
    assert(samples@.take(n as int) =~= samples@);
    sum
}

/// Whether the root mean square of a chunk is above `per_mille` thousandths
/// of full scale.
pub fn rms_exceeds(samples: &[i16], per_mille: u16) -> (above: bool)
    ensures
        above == rms_above(samples@, per_mille as nat),
{
    let sum: u128 = sum_of_squares(samples);
    let n: u128 = samples.len() as u128;
    let p: u128 = per_mille as u128;
    assert(p * p <= 0xffff * 0xffff) by (nonlinear_arith)
        requires
            0 <= p <= 0xffff,
    ;
    let threshold: u128 = p * p;
    let full: u128 = 0x3fff_0001;
    assert(full == FULL_SCALE as int * FULL_SCALE as int);
    assert(threshold * full <= 0xffff * 0xffff * 0x3fff_0001) by (nonlinear_arith)
        requires
            0 <= threshold <= 0xffff * 0xffff,
            full == 0x3fff_0001,
    ;
    let scaled: u128 = threshold * full;
    assert(scaled * n <= 0xffff * 0xffff * 0x3fff_0001 * 0xffff_ffff_ffff_ffff)
        by (nonlinear_arith)
        requires
            0 <= scaled <= 0xffff * 0xffff * 0x3fff_0001,
            0 <= n <= 0xffff_ffff_ffff_ffff,
    ;
    assert(scaled * n == per_mille as nat * per_mille as nat * (FULL_SCALE as int
        * FULL_SCALE as int) * samples@.len()) by (nonlinear_arith)
        requires
            scaled == threshold * full,
            threshold == p * p,
            p == per_mille as nat,
            full == FULL_SCALE as int * FULL_SCALE as int,
            n == samples@.len(),
    ;
    sum * 1_000_000 > scaled * n
}

/// Length in samples of one 30 ms detector frame at `sample_rate`.
pub open spec fn frame_len(sample_rate: u32) -> int {
    (sample_rate * 3) / 100
}

/// How many whole detector frames fit into `len` samples.
pub open spec fn full_frames(len: int, sample_rate: u32) -> int {
    len / frame_len(sample_rate)
}

/// Voice-activity ratio of `speech` frames among `total`: 100 times their
/// share, in thousandths of a percent, rounded down; 0 when there is no frame.
pub open spec fn vad_ratio_of(speech: int, total: int) -> int {
    if total > 0 {
        (FULL_PCT * speech) / total
    } else {
        0
    }
}

/// Counts of detector frames: those that were put to the detector, and
/// those among them that it classified as speech.
#[derive(Clone, Copy, Debug, PartialEq, Eq)]
pub struct FrameTally {
    /// Frames classified as speech.
    pub speech: usize,
    /// Frames put to the detector.
    pub total: usize,
}

impl FrameTally {
    /// No more frames are speech than there are frames.
    pub open spec fn wf(&self) -> bool {
        self.speech <= self.total
    }

    /// The tally with the answer of the detector for a further frame: a
    /// frame on which the detector fails counts as one without speech.
    pub open spec fn counted(self, answer: Result<bool, ()>) -> FrameTally {
        FrameTally {
            speech: if answer == Ok::<bool, ()>(true) {
                (self.speech + 1) as usize
            } else {
                self.speech
            },
            total: (self.total + 1) as usize,
        }
    }

    /// Voice-activity ratio: 100 times the speech frames over all frames,
    /// in thousandths of a percent, rounded down; 0 when there is no frame.
    pub open spec fn ratio(&self) -> int {
        vad_ratio_of(self.speech as int, self.total as int)
    }

    /// The empty tally.
    pub fn new() -> (tally: FrameTally)
        ensures
            tally == (FrameTally { speech: 0, total: 0 }),
    {
        FrameTally { speech: 0, total: 0 }
    }

    /// Adds the answer of the detector for one frame to the tally.
    pub fn count(self, answer: Result<bool, ()>) -> (tally: FrameTally)
        requires
            self.wf(),
            self.total < usize::MAX,
        ensures
            tally == self.counted(answer),
            tally.wf(),
    {
        match answer {
            Ok(true) => FrameTally { speech: self.speech + 1, total: self.total + 1 },
            _ => FrameTally { speech: self.speech, total: self.total + 1 },
        }
    }

    /// The voice-activity ratio of the tally.
    pub fn vad_ratio(&self) -> (pct: u32)
        requires
            self.wf(),
        ensures
            pct == self.ratio(),
            pct <= FULL_PCT,
    {
        if self.total > 0 {
            let scaled: u128 = (self.speech as u128) * (FULL_PCT as u128);
            let pct: u128 = scaled / (self.total as u128);
            assert(pct <= FULL_PCT) by (nonlinear_arith)
                requires
                    pct == (self.speech * FULL_PCT) / (self.total as int),
                    0 <= self.speech <= self.total,
                    self.total > 0,
            ;
            pct as u32
        } else {
            0
        }
    }
}

/// The heuristic signal-to-noise estimate: the signal level minus a noise
/// level that starts at the noise floor and rises by a tenth of the clipping
/// percentage. All three numbers are in thousandths (of dB, of dB, of a
/// percent), and the tenth is rounded down.
pub open spec fn snr_of(signal_level: i32, clipping_pct: u32) -> int {
    signal_level - (NOISE_FLOOR + clipping_pct as int / 10)
}

/// Estimates the signal-to-noise ratio from the signal level of a chunk,
/// which is 20 times the decimal logarithm of its root mean square, and
/// from its clipping percentage.
pub fn estimate_snr(signal_level: i32, clipping_pct: u32) -> (snr_db: i64)
    ensures
        snr_db == snr_of(signal_level, clipping_pct),
{
    let noise_level: i64 = NOISE_FLOOR + (clipping_pct / 10) as i64;
    signal_level as i64 - noise_level
}

/// Why an audio processor could not be made.
#[derive(Clone, Copy, Debug, PartialEq, Eq)]
pub enum AudioError {
    /// The detector works at 8000, 16000, 32000 and 48000 Hz only.
    UnsupportedSampleRate(u32),
}

/// Computes the quality metrics of audio chunks, one chunk at a time.
pub struct AudioProcessor {
    sample_rate: u32,
    channels: u16,
    vad: webrtc_vad::Vad,
}

impl AudioProcessor {
    /// The processor was made for a sample rate the detector accepts.
    pub closed spec fn wf(&self) -> bool {
        supported_rate(self.sample_rate)
    }

    /// The sample rate the processor was made for.
    pub closed spec fn rate(&self) -> u32 {
        self.sample_rate
    }

    /// The channel count the processor was made for.
    pub closed spec fn channel_count(&self) -> u16 {
        self.channels
    }

    /// Makes a processor for audio at `sample_rate` Hz.
    pub fn new(sample_rate: u32, channels: u16) -> (made: Result<AudioProcessor, AudioError>)
        ensures
            made is Ok <==> supported_rate(sample_rate),
            made matches Ok(p) ==> p.wf() && p.rate() == sample_rate && p.channel_count()
                == channels,
            made matches Err(e) ==> e == AudioError::UnsupportedSampleRate(sample_rate),
    {
        match detector_for_rate(sample_rate) {
            Some(vad) => Ok(AudioProcessor { sample_rate, channels, vad }),
            None => Err(AudioError::UnsupportedSampleRate(sample_rate)),
        }
    }

    /// The sample rate the processor was made for.
    pub fn sample_rate(&self) -> (rate: u32)
        ensures
            rate == self.rate(),
            self.wf() ==> supported_rate(rate),
    {
        self.sample_rate
    }

    /// The channel count the processor was made for.
    pub fn channels(&self) -> (channels: u16)
        ensures
            channels == self.channel_count(),
    {
        self.channels
    }

    /// Splits a chunk into 30 ms frames, has the detector classify each
    /// whole frame, and counts the answers. How many frames are speech is
    /// for the detector to say; a frame on which it fails counts as one
    /// without speech.
    pub fn run_vad(&mut self, samples: &[i16]) -> (tally: FrameTally)
        requires
            old(self).wf(),
        ensures
            final(self).wf(),
            tally.wf(),
            tally.total == full_frames(samples@.len() as int, old(self).rate()),
            final(self).rate() == old(self).rate(),
            final(self).channel_count() == old(self).channel_count(),
    {
        let frame_size: usize = (self.sample_rate as usize * 3) / 100;
        let n: usize = samples.len();
        let frames: usize = n / frame_size;
        let mut tally: FrameTally = FrameTally::new();
        let mut k: usize = 0;
        while k < frames
            invariant
                frame_size == frame_len(self.sample_rate),
                frame_size > 0,
                n == samples@.len(),
                frames == n as int / frame_size as int,
                k <= frames,
                tally.wf(),
                tally.total == k,
                self.sample_rate == old(self).sample_rate,
                self.channels == old(self).channels,
                supported_rate(self.sample_rate),
            decreases frames - k,
        {
            assert(0 <= k * frame_size && k * frame_size + frame_size <= n) by (nonlinear_arith)
                requires
                    0 <= k < frames,
                    frames == n as int / frame_size as int,
                    frame_size > 0,
            ;
            let start: usize = k * frame_size;
            let frame: &[i16] = slice_subrange(samples, start, start + frame_size);
            let answer: Result<bool, ()> = classify_frame(&mut self.vad, frame);
            tally = tally.count(answer);
            k = k + 1;
        }
        tally
    }

    /// Computes the quality metrics of one non-empty chunk.
    ///
    /// `signal_level` is the level of the chunk in thousandths of a decibel
    /// relative to full scale: 20 times the decimal logarithm of its root
    /// mean square.
    pub fn process_chunk(&mut self, samples: &[i16], signal_level: i32) -> (metrics: QcMetrics)
        requires
            old(self).wf(),
            samples@.len() > 0,
        ensures
            final(self).wf(),
            metrics.wf(),
            metrics.clipping_pct == clipping_pct_of(samples@),
            metrics.snr_db == snr_of(signal_level, metrics.clipping_pct),
            exists|speech: int|
                0 <= speech <= full_frames(samples@.len() as int, old(self).rate())
                    && metrics.vad_ratio == #[trigger] vad_ratio_of(
                    speech,
                    full_frames(samples@.len() as int, old(self).rate()),
                ),
            final(self).rate() == old(self).rate(),
            final(self).channel_count() == old(self).channel_count(),
    {
        let clipping_pct: u32 = detect_clipping(samples);
        let tally: FrameTally = self.run_vad(samples);
        let vad_ratio: u32 = tally.vad_ratio();
        assert(vad_ratio == vad_ratio_of(tally.speech as int, tally.total as int));
        let snr_db: i64 = estimate_snr(signal_level, clipping_pct);
        QcMetrics { snr_db, clipping_pct, vad_ratio }
    }
}

/// Sum of the signal-to-noise estimates of `s`.
pub open spec fn sum_snr(s: Seq<QcMetrics>) -> int
    decreases s.len(),
{
    if s.len() == 0 {
        0
    } else {
        sum_snr(s.drop_last()) + s.last().snr_db
    }
}

/// Sum of the clipping percentages of `s`.
pub open spec fn sum_clipping(s: Seq<QcMetrics>) -> int
    decreases s.len(),
{
    if s.len() == 0 {
        0
    } else {
        sum_clipping(s.drop_last()) + s.last().clipping_pct
    }
}

/// Sum of the voice-activity ratios of `s`.
pub open spec fn sum_vad(s: Seq<QcMetrics>) -> int
    decreases s.len(),
{
    if s.len() == 0 {
        0
    } else {
        sum_vad(s.drop_last()) + s.last().vad_ratio
    }
}

/// `a` divided by a positive `n`, rounded towards zero.
pub open spec fn div_towards_zero(a: int, n: int) -> int {
    if a >= 0 {
        a / n
    } else {
        -((-a) / n)
    }
}

/// The arithmetic mean of each field over the metrics of `s`, rounded
/// towards zero. Meant for a non-empty `s`.
pub open spec fn mean_metrics(s: Seq<QcMetrics>) -> QcMetrics {
    QcMetrics {
        snr_db: div_towards_zero(sum_snr(s), s.len() as int) as i64,
        clipping_pct: (sum_clipping(s) / (s.len() as int)) as u32,
        vad_ratio: (sum_vad(s) / (s.len() as int)) as u32,
    }
}

/// The sums of percentages that all lie within 0 and 100 are at most 100
/// times their number.
pub proof fn lemma_sums_of_wf(s: Seq<QcMetrics>)
    requires
        forall|i: int| 0 <= i < s.len() ==> (#[trigger] s[i]).wf(),
    ensures
        0 <= sum_clipping(s) <= FULL_PCT * s.len(),
        0 <= sum_vad(s) <= FULL_PCT * s.len(),
    decreases s.len(),
{
    if s.len() > 0 {
        let rest = s.drop_last();
        assert forall|i: int| 0 <= i < rest.len() implies (#[trigger] rest[i]).wf() by {
            assert(rest[i] == s[i]);
        }
        lemma_sums_of_wf(rest);
        assert(s.last() == s[s.len() - 1]);
        assert(s[s.len() - 1].wf());
    }
}

/// The mean of metrics whose percentages lie within 0 and 100 has its
/// percentages within 0 and 100.
pub proof fn lemma_mean_is_wf(s: Seq<QcMetrics>)
    requires
        s.len() > 0,
        forall|i: int| 0 <= i < s.len() ==> (#[trigger] s[i]).wf(),
    ensures
        mean_metrics(s).wf(),
{
    lemma_sums_of_wf(s);
    let n = s.len() as int;
    let c = sum_clipping(s);
    let v = sum_vad(s);
    assert(0 <= c / n <= FULL_PCT) by (nonlinear_arith)
        requires
            0 <= c <= FULL_PCT * n,
            n > 0,
    ;
    assert(0 <= v / n <= FULL_PCT) by (nonlinear_arith)
        requires
            0 <= v <= FULL_PCT * n,
            n > 0,
    ;
}

/// The session average: the arithmetic mean of each field over all chunks,
/// or `None` when there is no chunk to average.
pub fn average_metrics(metrics: &[QcMetrics]) -> (average: Option<QcMetrics>)
    ensures
        average is None <==> metrics@.len() == 0,
        average matches Some(m) ==> m == mean_metrics(metrics@),
        average matches Some(m) ==> ((forall|i: int|
            0 <= i < metrics@.len() ==> (#[trigger] metrics@[i]).wf()) ==> m.wf()),
{
    let n: usize = metrics.len();
    if n == 0 {
        return None;
    }
    let mut snr: i128 = 0;
    let mut clipping: u128 = 0;
    let mut vad: u128 = 0;
    let mut i: usize = 0;
    while i < n
        invariant
            n == metrics@.len(),
            i <= n,
            snr == sum_snr(metrics@.take(i as int)),
            clipping == sum_clipping(metrics@.take(i as int)),
            vad == sum_vad(metrics@.take(i as int)),
            i * i64::MIN <= snr <= i * i64::MAX,
            clipping <= i * u32::MAX,
            vad <= i * u32::MAX,
        decreases n - i,
    {
        assert(metrics@.take(i as int + 1).drop_last() =~= metrics@.take(i as int));
        snr = snr + metrics[i].snr_db as i128;
        clipping = clipping + metrics[i].clipping_pct as u128;
        vad = vad + metrics[i].vad_ratio as u128;
        i = i + 1;
    }
    assert(metrics@.take(n as int) =~= metrics@);
    let count: i128 = n as i128;
    let mean_snr: i128 = if snr >= 0 {
        snr / count
    } else {
        -((-snr) / count)
    };
    assert(i64::MIN <= mean_snr <= i64::MAX) by (nonlinear_arith)
        requires
            mean_snr == div_towards_zero(snr as int, count as int),
            count > 0,
            count * i64::MIN <= snr <= count * i64::MAX,
    ;
    let mean_clipping: u128 = clipping / (n as u128);
    assert(mean_clipping <= u32::MAX) by (nonlinear_arith)
        requires
            mean_clipping == clipping as int / n as int,
            n > 0,
            0 <= clipping <= n * u32::MAX,
    ;
    let mean_vad: u128 = vad / (n as u128);
    assert(mean_vad <= u32::MAX) by (nonlinear_arith)
        requires
            mean_vad == vad as int / n as int,
            n > 0,
            0 <= vad <= n * u32::MAX,
    ;
    let average = QcMetrics {
        snr_db: mean_snr as i64,
        clipping_pct: mean_clipping as u32,
        vad_ratio: mean_vad as u32,
    };
    proof {
        if forall|i: int| 0 <= i < metrics@.len() ==> (#[trigger] metrics@[i]).wf() {
            lemma_mean_is_wf(metrics@);
        }
    }
    Some(average)
}

} // verus!
