//! The capture session: what the consumer loop remembers between chunks, and
//! the rules by which it decides that a recording is over.
//!
//! Time is measured in samples actually processed, never by the clock, so a
//! slow consumer or a receive timeout cannot move a stop point.

use vstd::prelude::*;
use crate::ledger::Recording;
use crate::quality::{
    average_metrics, clipping_pct_of, mean_metrics, rms_above, rms_exceeds, snr_of,
    AudioProcessor, QcMetrics,
};

verus! {

/// Seconds of trailing silence after which a recording stops.
pub const SILENCE_TIMEOUT_SECS: u64 = 5;

/// A chunk has voice when its voice-activity ratio is above this: one
/// percent, in thousandths of a percent.
pub const VOICE_VAD_THRESHOLD: u32 = 1000;

/// A chunk has voice when its root mean square is above this many
/// thousandths of full scale.
pub const VOICE_RMS_FLOOR: u16 = 5;

/// Where a capture session stands.
#[derive(Clone, Copy, Debug, PartialEq, Eq)]
pub enum CaptureState {
    /// Chunks are still being taken.
    Capturing,
    /// The requested duration of audio has been processed.
    StoppedByDuration,
    /// The trailing silence has lasted for the silence timeout.
    StoppedBySilence,
    /// The producer side of the channel is gone.
    StoppedByChannelClose,
}

/// Why a session has no recording to hand over.
#[derive(Clone, Copy, Debug, PartialEq, Eq)]
pub enum CaptureError {
    /// A session needs a positive sample rate.
    ZeroSampleRate,
    /// The session is still capturing.
    StillCapturing,
    /// No chunk was processed, so there is nothing to average.
    NoChunks,
}

/// Whether a chunk counts as voice: the detector heard speech in more than
/// one percent of its frames, or its root mean square is above the floor.
pub open spec fn voice_present(metrics: QcMetrics, samples: Seq<i16>) -> bool {
    metrics.vad_ratio > VOICE_VAD_THRESHOLD || rms_above(samples, VOICE_RMS_FLOOR as nat)
}

/// Whether a chunk counts as voice.
pub fn has_voice_activity(metrics: &QcMetrics, samples: &[i16]) -> (voiced: bool)
    ensures
        voiced == voice_present(*metrics, samples@),
{
    metrics.vad_ratio > VOICE_VAD_THRESHOLD || rms_exceeds(samples, VOICE_RMS_FLOOR)
}

/// What can happen to a session while it waits on the channel.
pub enum SessionEvent {
    /// A chunk of `len` samples arrived, with its metrics; `voiced` says
    /// whether it counts as voice.
    Chunk { len: nat, voiced: bool, metrics: QcMetrics },
    /// The receive attempt timed out.
    Timeout,
    /// The channel was closed.
    Closed,
}

/// The mathematical state of a capture session.
pub struct SessionModel {
    /// Samples processed so far.
    pub total: nat,
    /// Samples per second.
    pub rate: nat,
    /// The metrics of the chunks processed so far, oldest first.
    pub metrics: Seq<QcMetrics>,
    /// Sample offset at which the current silence began, if the last
    /// chunk was silent.
    pub silence_start: Option<nat>,
    /// Requested duration in seconds, if any.
    pub target: Option<nat>,
    /// Where the session stands.
    pub state: CaptureState,
}

impl SessionModel {
    /// The rate is positive and the silence marker lies in the processed
    /// audio.
    pub open spec fn wf(self) -> bool {
        &&& self.rate > 0
        &&& self.silence_start matches Some(start) ==> start <= self.total
    }

    /// A fresh session.
    pub open spec fn initial(rate: nat, target: Option<nat>) -> SessionModel {
        SessionModel {
            total: 0,
            rate,
            metrics: Seq::empty(),
            silence_start: None,
            target,
            state: CaptureState::Capturing,
        }
    }

    /// The trailing silence has lasted for the timeout.
    pub open spec fn silence_reached(self) -> bool {
        self.silence_start matches Some(start) && self.total - start >= SILENCE_TIMEOUT_SECS
            * self.rate
    }

    /// The requested duration of audio has been processed.
    pub open spec fn duration_reached(self) -> bool {
        self.target matches Some(secs) && self.total >= secs * self.rate
    }

    /// The session after a chunk. A stopped session stays as it is.
    pub open spec fn on_chunk(self, len: nat, voiced: bool, metrics: QcMetrics) -> SessionModel {
        if self.state != CaptureState::Capturing {
            self
        } else {
            let taken = SessionModel {
                total: self.total + len,
                metrics: self.metrics.push(metrics),
                silence_start: if voiced {
                    None
                } else if self.silence_start is None {
                    Some(self.total)
                } else {
                    self.silence_start
                },
                ..self
            };
            SessionModel {
                state: if taken.silence_reached() {
                    CaptureState::StoppedBySilence
                } else if taken.duration_reached() {
                    CaptureState::StoppedByDuration
                } else {
                    CaptureState::Capturing
                },
                ..taken
            }
        }
    }

    /// The session after the channel was closed.
    pub open spec fn on_close(self) -> SessionModel {
        if self.state != CaptureState::Capturing {
            self
        } else {
            SessionModel { state: CaptureState::StoppedByChannelClose, ..self }
        }
    }

    /// The session after one event. A timeout changes nothing.
    pub open spec fn apply(self, event: SessionEvent) -> SessionModel {
        match event {
            SessionEvent::Chunk { len, voiced, metrics } => self.on_chunk(len, voiced, metrics),
            SessionEvent::Timeout => self,
            SessionEvent::Closed => self.on_close(),
        }
    }

    /// The session after a sequence of events, first to last.
    pub open spec fn run(self, events: Seq<SessionEvent>) -> SessionModel
        decreases events.len(),
    {
        if events.len() == 0 {
            self
        } else {
            self.run(events.drop_last()).apply(events.last())
        }
    }
}

/// A capture session: the state of the consumer loop.
pub struct CaptureSession {
    total_samples_processed: u64,
    samples_per_second: u64,
    metrics: Vec<QcMetrics>,
    silence_start_samples: Option<u64>,
    target_duration: Option<u32>,
    state: CaptureState,
}

impl View for CaptureSession {
    type V = SessionModel;

    closed spec fn view(&self) -> SessionModel {
        SessionModel {
            total: self.total_samples_processed as nat,
            rate: self.samples_per_second as nat,
            metrics: self.metrics@,
            silence_start: match self.silence_start_samples {
                Some(start) => Some(start as nat),
                None => None,
            },
            target: match self.target_duration {
                Some(secs) => Some(secs as nat),
                None => None,
            },
            state: self.state,
        }
    }
}

impl CaptureSession {
    /// The session is well formed, and its numbers fit the machine.
    pub closed spec fn wf(&self) -> bool {
        &&& self@.wf()
        &&& self.samples_per_second <= u32::MAX
    }

    /// Starts a session at `sample_rate` samples per second, to stop after
    /// `target_duration` seconds of audio if one is given.
    pub fn new(sample_rate: u32, target_duration: Option<u32>) -> (made: Result<
        CaptureSession,
        CaptureError,
    >)
        ensures
            made is Ok <==> sample_rate > 0,
            made matches Ok(session) ==> session.wf() && session@ == SessionModel::initial(
                sample_rate as nat,
                match target_duration {
                    Some(secs) => Some(secs as nat),
                    None => None,
                },
            ),
            made matches Err(e) ==> e == CaptureError::ZeroSampleRate,
    {
        if sample_rate == 0 {
            return Err(CaptureError::ZeroSampleRate);
        }
        let session = CaptureSession {
            total_samples_processed: 0,
            samples_per_second: sample_rate as u64,
            metrics: Vec::new(),
            silence_start_samples: None,
            target_duration,
            state: CaptureState::Capturing,
        };
        assert(session@.metrics =~= Seq::<QcMetrics>::empty());
        Ok(session)
    }

    /// Where the session stands.
    pub fn state(&self) -> (state: CaptureState)
        ensures
            state == self@.state,
    {
        self.state
    }

    /// Whether the session still takes chunks.
    pub fn is_capturing(&self) -> (capturing: bool)
        ensures
            capturing == (self@.state == CaptureState::Capturing),
    {
        match self.state {
            CaptureState::Capturing => true,
            _ => false,
        }
    }

    /// Samples processed so far.
    pub fn total_samples_processed(&self) -> (total: u64)
        ensures
            total == self@.total,
    {
        self.total_samples_processed
    }

    /// Sample offset at which the current silence began, if any.
    pub fn silence_start_samples(&self) -> (start: Option<u64>)
        ensures
            match start {
                Some(offset) => self@.silence_start == Some(offset as nat),
                None => self@.silence_start is None,
            },
    {
        self.silence_start_samples
    }

    /// How many chunks have been processed.
    pub fn chunk_count(&self) -> (count: usize)
        ensures
            count == self@.metrics.len(),
    {
        self.metrics.len()
    }

    /// The metrics of the chunk processed last, if any.
    pub fn last_metrics(&self) -> (metrics: Option<QcMetrics>)
        ensures
            match metrics {
                Some(m) => self@.metrics.len() > 0 && m == self@.metrics.last(),
                None => self@.metrics.len() == 0,
            },
    {
        let count: usize = self.metrics.len();
        if count == 0 {
            None
        } else {
            Some(self.metrics[count - 1])
        }
    }

    /// Takes one chunk whose metrics are known: appends the metrics,
    /// advances the sample count, moves or clears the silence marker, and
    /// decides whether the recording is over. Silence is looked at before
    /// duration.
    pub fn record_chunk(&mut self, samples: &[i16], metrics: QcMetrics) -> (state: CaptureState)
        requires
            old(self).wf(),
            old(self)@.total + samples@.len() <= u64::MAX,
        ensures
            final(self).wf(),
            final(self)@ == old(self)@.on_chunk(
                samples@.len(),
                voice_present(metrics, samples@),
                metrics,
            ),
            state == final(self)@.state,
    {
        match self.state {
            CaptureState::Capturing => {},
            _ => {
                return self.state;
            },
        }
        let voiced: bool = has_voice_activity(&metrics, samples);
        let chunk_start: u64 = self.total_samples_processed;
        self.metrics.push(metrics);
        self.total_samples_processed = self.total_samples_processed + samples.len() as u64;
        if voiced {
            self.silence_start_samples = None;
        } else if self.silence_start_samples.is_none() {
            self.silence_start_samples = Some(chunk_start);
        }
        let mut stop: CaptureState = CaptureState::Capturing;
        if let Some(start) = self.silence_start_samples {
            let silent: u64 = self.total_samples_processed - start;
            if silent >= SILENCE_TIMEOUT_SECS * self.samples_per_second {
                stop = CaptureState::StoppedBySilence;
            }
        }
        if let CaptureState::Capturing = stop {
            if let Some(secs) = self.target_duration {
                assert(secs * self.samples_per_second <= u64::MAX) by (nonlinear_arith)
                    requires
                        0 <= secs <= u32::MAX,
                        0 <= self.samples_per_second <= u32::MAX,
                ;
                if self.total_samples_processed >= secs as u64 * self.samples_per_second {
                    stop = CaptureState::StoppedByDuration;
                }
            }
        }
        self.state = stop;
        stop
    }

    /// Takes one chunk as it comes from the channel: has `processor` compute
    /// its metrics, then records it. An empty chunk has no metrics and is
    /// passed over.
    pub fn on_chunk(
        &mut self,
        processor: &mut AudioProcessor,
        samples: &[i16],
        signal_level: i32,
    ) -> (state: CaptureState)
        requires
            old(self).wf(),
            old(processor).wf(),
            old(self)@.total + samples@.len() <= u64::MAX,
        ensures
            final(self).wf(),
            final(processor).wf(),
            final(processor).rate() == old(processor).rate(),
            state == final(self)@.state,
            samples@.len() == 0 || old(self)@.state != CaptureState::Capturing ==> final(self)@
                == old(self)@,
            samples@.len() > 0 && old(self)@.state == CaptureState::Capturing ==> ({
                let metrics = final(self)@.metrics.last();
                &&& metrics.wf()
                &&& metrics.clipping_pct == clipping_pct_of(samples@)
                &&& metrics.snr_db == snr_of(signal_level, metrics.clipping_pct)
                &&& final(self)@ == old(self)@.on_chunk(
                    samples@.len(),
                    voice_present(metrics, samples@),
                    metrics,
                )
            }),
    {
        if samples.len() == 0 {
            return self.state;
        }
        match self.state {
            CaptureState::Capturing => {},
            _ => {
                return self.state;
            },
        }
        let metrics: QcMetrics = processor.process_chunk(samples, signal_level);
        self.record_chunk(samples, metrics)
    }

    /// A receive attempt timed out: nothing changes, the loop polls again.
    pub fn on_timeout(&self) -> (state: CaptureState)
        ensures
            state == self@.state,
            self@.apply(SessionEvent::Timeout) == self@,
    {
        self.state
    }

    /// The channel was closed: a capturing session stops.
    pub fn on_channel_closed(&mut self) -> (state: CaptureState)
        requires
            old(self).wf(),
        ensures
            final(self).wf(),
            final(self)@ == old(self)@.on_close(),
            state == final(self)@.state,
    {
        if let CaptureState::Capturing = self.state {
            self.state = CaptureState::StoppedByChannelClose;
        }
        self.state
    }

    /// The session average of the metrics, once the session has stopped.
    pub fn session_metrics(&self) -> (average: Result<QcMetrics, CaptureError>)
        ensures
            match average {
                Ok(m) => self@.state != CaptureState::Capturing && self@.metrics.len() > 0 && m
                    == mean_metrics(self@.metrics),
                Err(CaptureError::StillCapturing) => self@.state == CaptureState::Capturing,
                Err(CaptureError::NoChunks) => self@.state != CaptureState::Capturing
                    && self@.metrics.len() == 0,
                Err(CaptureError::ZeroSampleRate) => false,
            },
    {
        if let CaptureState::Capturing = self.state {
            return Err(CaptureError::StillCapturing);
        }
        match average_metrics(self.metrics.as_slice()) {
            Some(m) => Ok(m),
            None => Err(CaptureError::NoChunks),
        }
    }

    /// The recording of a stopped session, to hand over to the ledger: the
    /// session average of the metrics under the given identity, not yet
    /// delivered. A session that is still capturing, or that processed no
    /// chunk, has no recording.
    pub fn finalize(
        &self,
        id: String,
        lang: String,
        prompt: Option<String>,
        wav_path: String,
        created_at: i64,
    ) -> (recording: Result<Recording, CaptureError>)
        ensures
            match recording {
                Ok(r) => self@.state != CaptureState::Capturing && self@.metrics.len() > 0 && r
                    == (Recording {
                    id,
                    lang,
                    prompt,
                    qc_metrics: mean_metrics(self@.metrics),
                    created_at,
                    uploaded_at: None,
                    wav_path,
                }),
                Err(CaptureError::StillCapturing) => self@.state == CaptureState::Capturing,
                Err(CaptureError::NoChunks) => self@.state != CaptureState::Capturing
                    && self@.metrics.len() == 0,
                Err(CaptureError::ZeroSampleRate) => false,
            },
    {
        match self.session_metrics() {
            Ok(qc_metrics) => Ok(
                Recording { id, lang, prompt, qc_metrics, created_at, uploaded_at: None, wav_path },
            ),
            Err(e) => Err(e),
        }
    }
}

/// Samples carried by the chunks among `events`.
pub open spec fn samples_in(events: Seq<SessionEvent>) -> nat
    decreases events.len(),
{
    if events.len() == 0 {
        0
    } else {
        samples_in(events.drop_last()) + match events.last() {
            SessionEvent::Chunk { len, .. } => len,
            _ => 0,
        }
    }
}

/// `events` without the receive timeouts.
pub open spec fn without_timeouts(events: Seq<SessionEvent>) -> Seq<SessionEvent>
    decreases events.len(),
{
    if events.len() == 0 {
        events
    } else if events.last() is Timeout {
        without_timeouts(events.drop_last())
    } else {
        without_timeouts(events.drop_last()).push(events.last())
    }
}

/// A silent chunk, or a receive timeout.
pub open spec fn silent_or_timeout(event: SessionEvent) -> bool {
    match event {
        SessionEvent::Chunk { voiced, .. } => !voiced,
        SessionEvent::Timeout => true,
        SessionEvent::Closed => false,
    }
}

/// A chunk with voice, or a receive timeout.
pub open spec fn voiced_or_timeout(event: SessionEvent) -> bool {
    match event {
        SessionEvent::Chunk { voiced, .. } => voiced,
        SessionEvent::Timeout => true,
        SessionEvent::Closed => false,
    }
}

/// The offset from which the current silence counts: the marker if it is
/// set, else the end of the processed audio.
pub open spec fn silence_origin(m: SessionModel) -> nat {
    match m.silence_start {
        Some(start) => start,
        None => m.total,
    }
}

/// Receive timeouts never matter: a session ends up in the same state with
/// and without them, however many there are and wherever they fall.
pub proof fn lemma_timeouts_are_ignored(m: SessionModel, events: Seq<SessionEvent>)
    ensures
        m.run(events) == m.run(without_timeouts(events)),
    decreases events.len(),
{
    if events.len() > 0 {
        let rest = events.drop_last();
        lemma_timeouts_are_ignored(m, rest);
        if !(events.last() is Timeout) {
            let kept = without_timeouts(rest).push(events.last());
            assert(kept.drop_last() =~= without_timeouts(rest));
            assert(kept.last() == events.last());
        }
    }
}

/// Every step keeps a session well formed, keeps its rate and its target,
/// and never moves a silence marker that is set backwards: it stays where
/// it is until voice clears it. A stopped session never changes again.
pub proof fn lemma_step_invariants(m: SessionModel, event: SessionEvent)
    requires
        m.wf(),
    ensures
        m.apply(event).wf(),
        m.apply(event).rate == m.rate,
        m.apply(event).target == m.target,
        m.apply(event).total >= m.total,
        m.silence_start matches Some(before) ==> (m.apply(event).silence_start matches Some(
            after,
        ) ==> before <= after),
        m.state != CaptureState::Capturing ==> m.apply(event) == m,
{
}

/// While the silence has not lasted for the timeout and the requested
/// duration is not reached, silent chunks and timeouts leave the session
/// capturing, and the silence keeps counting from where it began.
proof fn lemma_silent_run(m: SessionModel, events: Seq<SessionEvent>)
    requires
        m.wf(),
        m.state == CaptureState::Capturing,
        forall|i: int| 0 <= i < events.len() ==> silent_or_timeout(#[trigger] events[i]),
        m.total + samples_in(events) - silence_origin(m) < SILENCE_TIMEOUT_SECS * m.rate,
        m.target matches Some(secs) ==> m.total + samples_in(events) < secs * m.rate,
    ensures
        m.run(events).wf(),
        m.run(events).state == CaptureState::Capturing,
        m.run(events).total == m.total + samples_in(events),
        m.run(events).rate == m.rate,
        m.run(events).target == m.target,
        silence_origin(m.run(events)) == silence_origin(m),
    decreases events.len(),
{
    if events.len() > 0 {
        let rest = events.drop_last();
        assert forall|i: int| 0 <= i < rest.len() implies silent_or_timeout(
            #[trigger] rest[i],
        ) by {
            assert(rest[i] == events[i]);
        }
        lemma_silent_run(m, rest);
        assert(silent_or_timeout(events[events.len() - 1]));
    }
}

/// While the requested duration is not reached, chunks with voice and
/// timeouts leave the session capturing.
proof fn lemma_voiced_run(m: SessionModel, events: Seq<SessionEvent>)
    requires
        m.wf(),
        m.state == CaptureState::Capturing,
        !m.silence_reached(),
        forall|i: int| 0 <= i < events.len() ==> voiced_or_timeout(#[trigger] events[i]),
        m.target matches Some(secs) ==> m.total + samples_in(events) < secs * m.rate,
    ensures
        m.run(events).wf(),
        m.run(events).state == CaptureState::Capturing,
        m.run(events).total == m.total + samples_in(events),
        m.run(events).rate == m.rate,
        m.run(events).target == m.target,
        !m.run(events).silence_reached(),
    decreases events.len(),
{
    if events.len() > 0 {
        let rest = events.drop_last();
        assert forall|i: int| 0 <= i < rest.len() implies voiced_or_timeout(
            #[trigger] rest[i],
        ) by {
            assert(rest[i] == events[i]);
        }
        lemma_voiced_run(m, rest);
        assert(voiced_or_timeout(events[events.len() - 1]));
    }
}

/// Silence stop. A capturing session whose last chunk had voice is fed
/// silent chunks, with any number of receive timeouts in between. If the
/// silence reaches the timeout with the last of them, and the requested
/// duration was not reached before, the session is capturing up to that
/// chunk and stops by silence with it. The audio processed since the silence
/// began is then at least the timeout, and less than the timeout plus that
/// last chunk.
pub proof fn lemma_silence_stop(m: SessionModel, events: Seq<SessionEvent>)
    requires
        m.wf(),
        m.state == CaptureState::Capturing,
        m.silence_start is None,
        events.len() > 0,
        forall|i: int| 0 <= i < events.len() ==> silent_or_timeout(#[trigger] events[i]),
        samples_in(events.drop_last()) < SILENCE_TIMEOUT_SECS * m.rate <= samples_in(events),
        m.target matches Some(secs) ==> m.total + samples_in(events.drop_last()) < secs * m.rate,
    ensures
        m.run(events.drop_last()).state == CaptureState::Capturing,
        m.run(events).state == CaptureState::StoppedBySilence,
        m.run(events).total == m.total + samples_in(events),
        events.last() matches SessionEvent::Chunk { len, .. } && m.total + SILENCE_TIMEOUT_SECS
            * m.rate <= m.run(events).total < m.total + SILENCE_TIMEOUT_SECS * m.rate + len,
{
    let rest = events.drop_last();
    assert forall|i: int| 0 <= i < rest.len() implies silent_or_timeout(#[trigger] rest[i]) by {
        assert(rest[i] == events[i]);
    }
    lemma_silent_run(m, rest);
    assert(silent_or_timeout(events[events.len() - 1]));
}

/// Duration stop. A capturing session with a requested duration is fed
/// chunks with voice, with any number of receive timeouts in between. If the
/// processed audio reaches the requested duration with the last of them, the
/// session is capturing up to that chunk and stops by duration with it: the
/// stop point is counted in samples, whatever the clock did.
pub proof fn lemma_duration_stop(m: SessionModel, events: Seq<SessionEvent>, secs: nat)
    requires
        m.wf(),
        m.state == CaptureState::Capturing,
        !m.silence_reached(),
        m.target == Some(secs),
        events.len() > 0,
        forall|i: int| 0 <= i < events.len() ==> voiced_or_timeout(#[trigger] events[i]),
        m.total + samples_in(events.drop_last()) < secs * m.rate <= m.total + samples_in(events),
    ensures
        m.run(events.drop_last()).state == CaptureState::Capturing,
        m.run(events).state == CaptureState::StoppedByDuration,
        m.run(events).total == m.total + samples_in(events),
        m.run(events).total >= secs * m.rate,
{
    let rest = events.drop_last();
    assert forall|i: int| 0 <= i < rest.len() implies voiced_or_timeout(#[trigger] rest[i]) by {
        assert(rest[i] == events[i]);
    }
    lemma_voiced_run(m, rest);
    assert(voiced_or_timeout(events[events.len() - 1]));
}

} // verus!
