//! The upload queue manager: one pass over the recordings that wait for
//! delivery.
//!
//! The manager decides; its caller acts. A run says what is to be done next
//! (look for a file, submit a recording), the caller does it and reports what
//! came of it, and the run moves on.

use vstd::prelude::*;
use crate::config::{AudioConfig, Config, UploadConfig};
use crate::ledger::{
    consistent, entries_for, holds, lemma_entries_for, lemma_lists, lemma_mark_uploaded_steps,
    lemma_pending_len, lemma_position, lemma_row_replaced, lemma_source_of, lemma_source_order,
    lists,
    marked_uploaded, pending_of, position, row_consistent, row_pending, source_of, with_failure,
    with_uploaded_at, Ledger, LedgerError, LedgerRow, Recording, UploadQueueEntry,
};
use crate::quality::QcMetrics;

verus! {

/// What is sent to the service for one recording, besides the audio file.
#[derive(Debug)]
pub struct UploadRequest {
    /// Identifier of the recording.
    pub recording_id: String,
    /// Language code.
    pub lang: String,
    /// Quality metrics of the recording.
    pub qc_metrics: QcMetrics,
    /// Where the audio file lies.
    pub file_path: String,
}

/// What the service answers to a submission it accepted.
#[derive(Debug)]
pub struct UploadResponse {
    /// Status text.
    pub status: String,
    /// Reward for the recording.
    pub tokens_awarded: u32,
    /// Identifier of the recording.
    pub recording_id: String,
}

/// What the screening of a pending recording comes to.
#[derive(Clone, Copy, Debug, PartialEq, Eq)]
pub enum Screening {
    /// The recording may be submitted.
    Eligible,
    /// Its audio file is not in storage.
    MissingFile,
    /// Its signal-to-noise estimate is below the configured minimum.
    LowSnr,
    /// Its clipping percentage is above the configured maximum.
    HighClipping,
    /// Its voice-activity ratio is below the configured minimum.
    LowVad,
}

/// Whether stored metrics pass the quality gate.
pub open spec fn passes_quality_gate(metrics: QcMetrics, audio: AudioConfig) -> bool {
    &&& metrics.snr_db >= audio.min_snr_db
    &&& metrics.clipping_pct <= audio.max_clipping_pct
    &&& metrics.vad_ratio >= audio.min_vad_ratio
}

/// The screening of a pending recording: a missing file comes first, then,
/// unless the upload is forced, the quality gate on signal-to-noise, on clipping and
/// on voice activity, in this order.
pub open spec fn screening_of(
    metrics: QcMetrics,
    audio: AudioConfig,
    file_exists: bool,
    force: bool,
) -> Screening {
    if !file_exists {
        Screening::MissingFile
    } else if force {
        Screening::Eligible
    } else if metrics.snr_db < audio.min_snr_db {
        Screening::LowSnr
    } else if metrics.clipping_pct > audio.max_clipping_pct {
        Screening::HighClipping
    } else if metrics.vad_ratio < audio.min_vad_ratio {
        Screening::LowVad
    } else {
        Screening::Eligible
    }
}

/// Screens a pending recording by its stored metrics.
pub fn screen(metrics: &QcMetrics, audio: &AudioConfig, file_exists: bool, force: bool) -> (result:
    Screening)
    ensures
        result == screening_of(*metrics, *audio, file_exists, force),
        result == Screening::Eligible <==> file_exists && (force || passes_quality_gate(
            *metrics,
            *audio,
        )),
{
    if !file_exists {
        Screening::MissingFile
    } else if force {
        Screening::Eligible
    } else if metrics.snr_db < audio.min_snr_db {
        Screening::LowSnr
    } else if metrics.clipping_pct > audio.max_clipping_pct {
        Screening::HighClipping
    } else if metrics.vad_ratio < audio.min_vad_ratio {
        Screening::LowVad
    } else {
        Screening::Eligible
    }
}

/// The pause before the next attempt, after `attempts` failed ones: the
/// base delay times the attempts, held at the greatest number of seconds a
/// pause can have.
pub open spec fn backoff_of(retry_delay_secs: u64, attempts: u64) -> u64 {
    if retry_delay_secs * attempts <= u64::MAX {
        (retry_delay_secs * attempts) as u64
    } else {
        u64::MAX
    }
}

/// The pause before the next attempt, in seconds.
pub fn backoff_secs(retry_delay_secs: u64, attempts: u64) -> (secs: u64)
    ensures
        secs == backoff_of(retry_delay_secs, attempts),
{
    match retry_delay_secs.checked_mul(attempts) {
        Some(secs) => secs,
        None => u64::MAX,
    }
}

/// What a run waits for.
#[derive(Clone, Copy, Debug, PartialEq, Eq)]
pub enum Awaiting {
    /// Whether the audio file of the current recording is in storage.
    FileCheck,
    /// What came of submitting the current recording.
    Delivery,
    /// Nothing: the run is over.
    Nothing,
}

/// The counts reported at the end of a run.
#[derive(Clone, Copy, Debug, PartialEq, Eq)]
pub struct UploadSummary {
    /// Recordings delivered in this run.
    pub successful: usize,
    /// Recordings passed over: file missing, or held back by the quality gate.
    pub skipped: usize,
    /// Recordings whose attempts are used up.
    pub failed: usize,
}

/// The mathematical state of a run.
pub struct RunModel {
    /// The recordings that waited when the run began, oldest first.
    pub pending: Seq<(Recording, UploadQueueEntry)>,
    /// Index of the current recording.
    pub cursor: nat,
    /// Failed attempts on the current recording, those of earlier runs
    /// included.
    pub attempts: u64,
    /// Seconds to pause before the next submission.
    pub backoff: u64,
    /// What the run waits for.
    pub awaiting: Awaiting,
    /// The counts so far.
    pub summary: UploadSummary,
    /// Whether the quality gate is off.
    pub force: bool,
    /// The quality gate.
    pub audio: AudioConfig,
    /// The retry policy.
    pub upload: UploadConfig,
}

impl RunModel {
    /// A run that begins on `pending`.
    pub open spec fn begin(
        pending: Seq<(Recording, UploadQueueEntry)>,
        force: bool,
        audio: AudioConfig,
        upload: UploadConfig,
    ) -> RunModel {
        RunModel {
            pending,
            cursor: 0,
            attempts: 0,
            backoff: 0,
            awaiting: if pending.len() > 0 {
                Awaiting::FileCheck
            } else {
                Awaiting::Nothing
            },
            summary: UploadSummary { successful: 0, skipped: 0, failed: 0 },
            force,
            audio,
            upload,
        }
    }

    /// The current recording.
    pub open spec fn current(self) -> Recording {
        self.pending[self.cursor as int].0
    }

    /// The queue entry of the current recording, as it was when the run
    /// began.
    pub open spec fn current_entry(self) -> UploadQueueEntry {
        self.pending[self.cursor as int].1
    }

    /// What holds of every run: the cursor is within the list, every
    /// recording before it is counted once, the run is over exactly when the
    /// cursor is at the end, and a recording is up for submission only with
    /// attempts left and only if the quality gate lets it through or is off.
    pub open spec fn wf(self) -> bool {
        &&& self.cursor <= self.pending.len()
        &&& self.pending.len() <= usize::MAX
        &&& self.summary.successful + self.summary.skipped + self.summary.failed == self.cursor
        &&& self.awaiting == Awaiting::Nothing <==> self.cursor == self.pending.len()
        &&& self.awaiting == Awaiting::Delivery ==> {
            &&& self.attempts < self.upload.max_retries
            &&& self.attempts >= self.current_entry().attempts
            &&& self.force || passes_quality_gate(self.current().qc_metrics, self.audio)
        }
    }

    /// The run moved on to the next recording.
    pub open spec fn advanced(self, summary: UploadSummary) -> RunModel {
        RunModel {
            cursor: self.cursor + 1,
            attempts: 0,
            backoff: 0,
            awaiting: if self.cursor + 1 < self.pending.len() {
                Awaiting::FileCheck
            } else {
                Awaiting::Nothing
            },
            summary,
            ..self
        }
    }

    /// The run after it learned whether the audio file of the current
    /// recording exists. A recording that is screened out is skipped and
    /// charged no attempt. One that is eligible but has no attempt left
    /// counts as failed without being submitted. Else the run waits for its
    /// delivery.
    pub open spec fn file_checked(self, file_exists: bool) -> RunModel {
        if self.awaiting != Awaiting::FileCheck {
            self
        } else if screening_of(self.current().qc_metrics, self.audio, file_exists, self.force)
            != Screening::Eligible {
            self.advanced(
                UploadSummary { skipped: (self.summary.skipped + 1) as usize, ..self.summary },
            )
        } else if self.current_entry().attempts >= self.upload.max_retries {
            self.advanced(
                UploadSummary { failed: (self.summary.failed + 1) as usize, ..self.summary },
            )
        } else {
            RunModel {
                awaiting: Awaiting::Delivery,
                attempts: self.current_entry().attempts,
                backoff: 0,
                ..self
            }
        }
    }

    /// The run after the current recording was delivered.
    pub open spec fn delivered(self) -> RunModel {
        if self.awaiting != Awaiting::Delivery {
            self
        } else {
            self.advanced(
                UploadSummary {
                    successful: (self.summary.successful + 1) as usize,
                    ..self.summary
                },
            )
        }
    }

    /// The run after a submission of the current recording failed: one
    /// more attempt is charged; with attempts left the run pauses and tries
    /// again, else the recording counts as failed and the run moves on.
    pub open spec fn failed(self) -> RunModel {
        if self.awaiting != Awaiting::Delivery {
            self
        } else if self.attempts + 1 < self.upload.max_retries {
            RunModel {
                attempts: (self.attempts + 1) as u64,
                backoff: backoff_of(self.upload.retry_delay_secs, (self.attempts + 1) as u64),
                ..self
            }
        } else {
            self.advanced(
                UploadSummary { failed: (self.summary.failed + 1) as usize, ..self.summary },
            )
        }
    }
}

/// The run after a submission of the current recording came back.
pub open spec fn run_after(run: RunModel, delivered: bool) -> RunModel {
    if delivered {
        run.delivered()
    } else {
        run.failed()
    }
}

/// The ledger after a submission of the current recording of `run` came
/// back at time `now`: the recording is marked uploaded, or one more failed
/// attempt is written down.
pub open spec fn ledger_after(rows: Seq<LedgerRow>, run: RunModel, delivered: bool, now: i64) -> Seq<
    LedgerRow,
> {
    if run.awaiting != Awaiting::Delivery {
        rows
    } else if delivered {
        marked_uploaded(rows, run.current().id@, now)
    } else {
        with_failure(rows, run.current().id@, (run.attempts + 1) as u64, now)
    }
}

/// Why the ledger refuses to take down what came of a submission, if it
/// does: the recording is unknown, or it was delivered and is marked so
/// already, or it failed and has no queue entry to count on.
pub open spec fn refused(rows: Seq<LedgerRow>, id: Seq<char>, delivered: bool) -> Option<
    LedgerError,
> {
    if !holds(rows, id) {
        Some(LedgerError::UnknownRecording)
    } else if delivered && rows[position(rows, id)].recording.uploaded_at is Some {
        Some(LedgerError::AlreadyUploaded)
    } else if !delivered && rows[position(rows, id)].queue is None {
        Some(LedgerError::NotQueued)
    } else {
        None
    }
}

/// What the caller of a run is to do next.
#[derive(Debug)]
pub enum UploadAction {
    /// Find out whether this file exists, and report it with
    /// `file_checked`.
    CheckFile { path: String },
    /// Pause for `after_secs` seconds, submit the request with the audio
    /// file, and report what came of it with `submission_finished`.
    Submit { request: UploadRequest, after_secs: u64 },
    /// Nothing: the run is over.
    Finished { summary: UploadSummary },
}

/// One pass over the recordings that wait for delivery.
pub struct UploadRun {
    pending: Vec<(Recording, UploadQueueEntry)>,
    cursor: usize,
    attempts: u64,
    backoff: u64,
    awaiting: Awaiting,
    summary: UploadSummary,
    force: bool,
    audio: AudioConfig,
    upload: UploadConfig,
}

impl View for UploadRun {
    type V = RunModel;

    closed spec fn view(&self) -> RunModel {
        RunModel {
            pending: self.pending@,
            cursor: self.cursor as nat,
            attempts: self.attempts,
            backoff: self.backoff,
            awaiting: self.awaiting,
            summary: self.summary,
            force: self.force,
            audio: self.audio,
            upload: self.upload,
        }
    }
}

impl UploadRun {
    /// Begins a run on the recordings that wait in `ledger`.
    pub fn begin(ledger: &Ledger, force: bool, audio: AudioConfig, upload: UploadConfig) -> (run:
        UploadRun)
        ensures
            run@ == RunModel::begin(pending_of(ledger@), force, audio, upload),
            run@.wf(),
            consistent(ledger@) ==> tracks(run@, ledger@),
    {
        let pending: Vec<(Recording, UploadQueueEntry)> = ledger.list_pending();
        proof {
            if consistent(ledger@) {
                lemma_begin_tracks(ledger@, force, audio, upload);
            }
        }
        let awaiting: Awaiting = if pending.len() > 0 {
            Awaiting::FileCheck
        } else {
            Awaiting::Nothing
        };
        UploadRun {
            pending,
            cursor: 0,
            attempts: 0,
            backoff: 0,
            awaiting,
            summary: UploadSummary { successful: 0, skipped: 0, failed: 0 },
            force,
            audio,
            upload,
        }
    }

    /// The counts so far.
    pub fn summary(&self) -> (summary: UploadSummary)
        ensures
            summary == self@.summary,
    {
        self.summary
    }

    /// Whether the run is over.
    pub fn is_finished(&self) -> (finished: bool)
        ensures
            finished == (self@.awaiting == Awaiting::Nothing),
    {
        match self.awaiting {
            Awaiting::Nothing => true,
            _ => false,
        }
    }

    /// What the caller is to do next.
    pub fn next_action(&self) -> (action: UploadAction)
        requires
            self@.wf(),
        ensures
            match action {
                UploadAction::CheckFile { path } => self@.awaiting == Awaiting::FileCheck && path
                    == self@.current().wav_path,
                UploadAction::Submit { request, after_secs } => {
                    &&& self@.awaiting == Awaiting::Delivery
                    &&& request.recording_id == self@.current().id
                    &&& request.lang == self@.current().lang
                    &&& request.qc_metrics == self@.current().qc_metrics
                    &&& request.file_path == self@.current().wav_path
                    &&& after_secs == self@.backoff
                },
                UploadAction::Finished { summary } => self@.awaiting == Awaiting::Nothing
                    && summary == self@.summary,
            },
    {
        match self.awaiting {
            Awaiting::FileCheck => {
                let recording: &Recording = &self.pending[self.cursor].0;
                UploadAction::CheckFile { path: recording.wav_path.clone() }
            },
            Awaiting::Delivery => {
                let recording: &Recording = &self.pending[self.cursor].0;
                UploadAction::Submit {
                    request: UploadRequest {
                        recording_id: recording.id.clone(),
                        lang: recording.lang.clone(),
                        qc_metrics: recording.qc_metrics,
                        file_path: recording.wav_path.clone(),
                    },
                    after_secs: self.backoff,
                }
            },
            Awaiting::Nothing => UploadAction::Finished { summary: self.summary },
        }
    }

    fn advance(&mut self, summary: UploadSummary)
        requires
            old(self).cursor < old(self).pending@.len(),
        ensures
            final(self)@ == old(self)@.advanced(summary),
    {
        let count: usize = self.pending.len();
        self.cursor = self.cursor + 1;
        self.attempts = 0;
        self.backoff = 0;
        self.summary = summary;
        self.awaiting = if self.cursor < count {
            Awaiting::FileCheck
        } else {
            Awaiting::Nothing
        };
    }

    /// Takes what came of a submission, at time `now`. A response means
    /// the recording was delivered: it is marked uploaded in the ledger and
    /// the run moves on. No response means the submission failed: the attempt
    /// is written down in the ledger at once, and the run either tries again
    /// after a pause or gives the recording up for this run. If the ledger
    /// refuses, nothing changes and the refusal is handed on.
    pub fn submission_finished(
        &mut self,
        ledger: &mut Ledger,
        response: Option<UploadResponse>,
        now: i64,
    ) -> (done: Result<(), LedgerError>)
        requires
            old(self)@.wf(),
            consistent(old(ledger)@),
        ensures
            final(self)@.wf(),
            consistent(final(ledger)@),
            old(self)@.awaiting != Awaiting::Delivery ==> done is Ok && final(self)@ == old(self)@
                && final(ledger)@ == old(ledger)@,
            tracks(old(self)@, old(ledger)@) ==> done is Ok && tracks(final(self)@, final(ledger)@),
            old(self)@.awaiting == Awaiting::Delivery ==> ({
                let id = old(self)@.current().id@;
                let rows = old(ledger)@;
                match done {
                    Ok(()) => {
                        &&& refused(rows, id, response is Some) is None
                        &&& final(ledger)@ == ledger_after(rows, old(self)@, response is Some, now)
                        &&& final(self)@ == run_after(old(self)@, response is Some)
                    },
                    Err(e) => {
                        &&& final(self)@ == old(self)@
                        &&& final(ledger)@ == old(ledger)@
                        &&& refused(rows, id, response is Some) == Some(e)
                    },
                }
            }),
    {
        match self.awaiting {
            Awaiting::Delivery => {},
            _ => {
                return Ok(());
            },
        }
        proof {
            if tracks(self@, ledger@) {
                lemma_submission_tracks(self@, ledger@, response is Some, now);
            }
        }
        if response.is_some() {
            match ledger.mark_uploaded(self.pending[self.cursor].0.id.as_str(), now) {
                Ok(()) => {},
                Err(e) => {
                    return Err(e);
                },
            }
            let summary = UploadSummary {
                successful: self.summary.successful + 1,
                ..self.summary
            };
            self.advance(summary);
        } else {
            let attempts: u64 = self.attempts + 1;
            match ledger.record_failure(self.pending[self.cursor].0.id.as_str(), attempts, now) {
                Ok(()) => {},
                Err(e) => {
                    return Err(e);
                },
            }
            if attempts < self.upload.max_retries as u64 {
                self.attempts = attempts;
                self.backoff = backoff_secs(self.upload.retry_delay_secs, attempts);
            } else {
                let summary = UploadSummary { failed: self.summary.failed + 1, ..self.summary };
                self.advance(summary);
            }
        }
        Ok(())
    }

    /// Takes the answer to `CheckFile`: screens the current recording, and
    /// either skips it, counts it as failed for want of attempts, or puts it
    /// up for submission.
    pub fn file_checked(&mut self, file_exists: bool)
        requires
            old(self)@.wf(),
        ensures
            final(self)@.wf(),
            final(self)@ == old(self)@.file_checked(file_exists),
            forall|rows: Seq<LedgerRow>|
                tracks(old(self)@, rows) ==> #[trigger] tracks(final(self)@, rows),
    {
        proof {
            assert forall|rows: Seq<LedgerRow>| tracks(self@, rows) implies #[trigger] tracks(
                self@.file_checked(file_exists),
                rows,
            ) by {
                lemma_file_checked_tracks(self@, rows, file_exists);
            }
        }
        match self.awaiting {
            Awaiting::FileCheck => {},
            _ => {
                return ;
            },
        }
        let metrics: QcMetrics = self.pending[self.cursor].0.qc_metrics;
        let stored_attempts: u64 = self.pending[self.cursor].1.attempts;
        match screen(&metrics, &self.audio, file_exists, self.force) {
            Screening::Eligible => {
                if stored_attempts >= self.upload.max_retries as u64 {
                    let summary = UploadSummary {
                        failed: self.summary.failed + 1,
                        ..self.summary
                    };
                    self.advance(summary);
                } else {
                    self.awaiting = Awaiting::Delivery;
                    self.attempts = stored_attempts;
                    self.backoff = 0;
                }
            },
            _ => {
                let summary = UploadSummary { skipped: self.summary.skipped + 1, ..self.summary };
                self.advance(summary);
            },
        }
    }
}

/// The upload side of the service, with the configuration it works by.
pub struct UploadClient {
    config: Config,
}

impl UploadClient {
    /// The configuration of the client.
    pub closed spec fn config(&self) -> Config {
        self.config
    }

    /// A client that works by `config`.
    pub fn new(config: Config) -> (client: UploadClient)
        ensures
            client.config() == config,
    {
        UploadClient { config }
    }

    /// The address recordings are submitted to.
    pub fn upload_url(&self) -> (url: String)
        ensures
            url@ == self.config().api.endpoint@ + "/recordings/upload"@,
    {
        self.config.api.url_for("/recordings/upload")
    }

    /// Begins one pass over the recordings that wait in `ledger`, with the
    /// quality gate and the retry policy of the configuration. The caller
    /// carries the pass out, action by action.
    pub fn upload_pending_recordings(&self, ledger: &Ledger, force: bool) -> (run: UploadRun)
        ensures
            run@ == RunModel::begin(
                pending_of(ledger@),
                force,
                self.config().audio,
                self.config().upload,
            ),
            run@.wf(),
            consistent(ledger@) ==> tracks(run@, ledger@),
    {
        UploadRun::begin(ledger, force, self.config.audio, self.config.upload)
    }
}

/// The current recording of `run` waits in the ledger, and the ledger has
/// written down as many failed attempts as the run counts.
pub open spec fn in_delivery(run: RunModel, rows: Seq<LedgerRow>) -> bool {
    &&& run.wf()
    &&& consistent(rows)
    &&& run.awaiting == Awaiting::Delivery
    &&& holds(rows, run.current().id@)
    &&& row_pending(rows[position(rows, run.current().id@)])
    &&& rows[position(rows, run.current().id@)].queue->0.attempts == run.attempts
}

/// The run and the ledger after one submission after the other failed, at
/// the times of `times`.
pub open spec fn after_failures(run: RunModel, rows: Seq<LedgerRow>, times: Seq<i64>) -> (
    RunModel,
    Seq<LedgerRow>,
)
    decreases times.len(),
{
    if times.len() == 0 {
        (run, rows)
    } else {
        let (r, l) = after_failures(run, rows, times.drop_last());
        (r.failed(), ledger_after(l, r, false, times.last()))
    }
}

/// Quality gate. A run never puts a recording up for submission whose
/// metrics do not pass the quality gate, unless the upload is forced: whatever the
/// storage says of its file, a recording below the least signal-to-noise
/// estimate, above the greatest clipping or below the least voice activity is
/// skipped, and charged no attempt.
pub proof fn lemma_quality_gate(run: RunModel, file_exists: bool)
    requires
        run.wf(),
        run.awaiting == Awaiting::FileCheck,
        !run.force,
        !passes_quality_gate(run.current().qc_metrics, run.audio),
    ensures
        run.file_checked(file_exists).cursor == run.cursor + 1,
        run.file_checked(file_exists).pending == run.pending,
        run.file_checked(file_exists).summary.skipped == run.summary.skipped + 1,
        run.file_checked(file_exists).summary.successful == run.summary.successful,
        run.file_checked(file_exists).summary.failed == run.summary.failed,
{
}

/// Every step takes a well-formed run to a well-formed run, and in a
/// well-formed run a recording is up for submission only if the upload is
/// forced or its metrics pass the quality gate.
pub proof fn lemma_run_steps(run: RunModel, file_exists: bool)
    requires
        run.wf(),
    ensures
        run.file_checked(file_exists).wf(),
        run.delivered().wf(),
        run.failed().wf(),
        run.awaiting == Awaiting::Delivery ==> run.force || passes_quality_gate(
            run.current().qc_metrics,
            run.audio,
        ),
        RunModel::begin(run.pending, run.force, run.audio, run.upload).wf(),
{
}

/// One failed submission: the ledger has one more attempt written down
/// for the recording, with the time of the attempt, and the recording still
/// waits. With attempts left the run stays on the recording and pauses for
/// the base delay times the attempts; else it counts the recording as failed
/// and moves on.
pub proof fn lemma_failure(run: RunModel, rows: Seq<LedgerRow>, now: i64)
    requires
        in_delivery(run, rows),
    ensures
        ({
            let id = run.current().id@;
            let after = ledger_after(rows, run, false, now);
            let i = position(rows, id);
            &&& consistent(after)
            &&& holds(after, id)
            &&& position(after, id) == i
            &&& row_pending(after[i])
            &&& after[i].queue->0.attempts == run.attempts + 1
            &&& after[i].queue->0.last_attempt == Some(now)
            &&& after[i].recording == rows[i].recording
            &&& lists(pending_of(after), id)
            &&& entries_for(after, id) == 1
        }),
        run.attempts + 1 < run.upload.max_retries ==> in_delivery(
            run.failed(),
            ledger_after(rows, run, false, now),
        ) && run.failed().cursor == run.cursor && run.failed().backoff == backoff_of(
            run.upload.retry_delay_secs,
            (run.attempts + 1) as u64,
        ),
        run.attempts + 1 >= run.upload.max_retries ==> run.failed() == run.advanced(
            UploadSummary { failed: (run.summary.failed + 1) as usize, ..run.summary },
        ),
{
    let id = run.current().id@;
    let i = position(rows, id);
    let after = ledger_after(rows, run, false, now);
    assert(row_consistent(rows[i]));
    lemma_row_replaced(rows, i, after[i]);
    assert(after[i].recording.id@ == id);
    lemma_position(after, i);
    lemma_lists(after, id);
    lemma_entries_for(after, id);
}

/// Upload retry, the transport that always fails. A recording that is up
/// for submission, and whose submissions fail until its attempts are used
/// up, ends with exactly the configured maximum of attempts written down in
/// the ledger, and still waits there; the run has counted it as failed and
/// moved on.
pub proof fn lemma_always_failing(run: RunModel, rows: Seq<LedgerRow>, times: Seq<i64>)
    requires
        in_delivery(run, rows),
        times.len() == run.upload.max_retries - run.attempts,
    ensures
        ({
            let id = run.current().id@;
            let (r, l) = after_failures(run, rows, times);
            &&& consistent(l)
            &&& holds(l, id)
            &&& row_pending(l[position(l, id)])
            &&& l[position(l, id)].queue->0.attempts == run.upload.max_retries
            &&& l[position(l, id)].queue->0.last_attempt == Some(times.last())
            &&& lists(pending_of(l), id)
            &&& r == run.advanced(
                UploadSummary { failed: (run.summary.failed + 1) as usize, ..run.summary },
            )
        }),
{
    let earlier = times.drop_last();
    lemma_failing(run, rows, earlier);
    let (r, l) = after_failures(run, rows, earlier);
    lemma_failure(r, l, times.last());
}

/// While attempts are left, failed submissions keep the run on its
/// recording, and the ledger counts with it.
proof fn lemma_failing(run: RunModel, rows: Seq<LedgerRow>, times: Seq<i64>)
    requires
        in_delivery(run, rows),
        times.len() < run.upload.max_retries - run.attempts,
    ensures
        in_delivery(after_failures(run, rows, times).0, after_failures(run, rows, times).1),
        after_failures(run, rows, times).0.attempts == run.attempts + times.len(),
        after_failures(run, rows, times).0.cursor == run.cursor,
        after_failures(run, rows, times).0.pending == run.pending,
        after_failures(run, rows, times).0.summary == run.summary,
        after_failures(run, rows, times).0.upload == run.upload,
        after_failures(run, rows, times).0.audio == run.audio,
        after_failures(run, rows, times).0.force == run.force,
    decreases times.len(),
{
    if times.len() > 0 {
        let earlier = times.drop_last();
        lemma_failing(run, rows, earlier);
        let (r, l) = after_failures(run, rows, earlier);
        lemma_failure(r, l, times.last());
    }
}

/// Upload retry, the transport that fails once and then succeeds. After
/// the failure exactly one more attempt is written down for the recording;
/// after the success the recording is marked uploaded at the time of the
/// success, its queue entry is gone, and the run has counted it as
/// successful and moved on.
pub proof fn lemma_failure_then_success(
    run: RunModel,
    rows: Seq<LedgerRow>,
    failed_at: i64,
    delivered_at: i64,
)
    requires
        in_delivery(run, rows),
        run.attempts + 1 < run.upload.max_retries,
    ensures
        ({
            let id = run.current().id@;
            let i = position(rows, id);
            let between = ledger_after(rows, run, false, failed_at);
            let after = ledger_after(between, run.failed(), true, delivered_at);
            &&& between[i].queue->0.attempts == run.attempts + 1
            &&& between[i].recording.uploaded_at is None
            &&& consistent(after)
            &&& after[i].recording.id@ == id
            &&& after[i].recording.uploaded_at == Some(delivered_at)
            &&& after[i].queue is None
            &&& entries_for(after, id) == 0
            &&& !lists(pending_of(after), id)
            &&& run.failed().delivered() == run.advanced(
                UploadSummary {
                    successful: (run.summary.successful + 1) as usize,
                    ..run.summary
                },
            )
        }),
{
    let id = run.current().id@;
    lemma_failure(run, rows, failed_at);
    let between = ledger_after(rows, run, false, failed_at);
    lemma_mark_uploaded_steps(between, id, delivered_at);
}

/// The recording of `item` waits in the ledger, unchanged.
pub open spec fn waits_as(rows: Seq<LedgerRow>, item: (Recording, UploadQueueEntry)) -> bool {
    &&& holds(rows, item.0.id@)
    &&& row_pending(rows[position(rows, item.0.id@)])
    &&& rows[position(rows, item.0.id@)].recording == item.0
}

/// The failed attempts that the ledger has written down for a recording.
pub open spec fn attempts_in(rows: Seq<LedgerRow>, id: Seq<char>) -> u64 {
    rows[position(rows, id)].queue->0.attempts
}

/// The run and the ledger belong together: the ledger is consistent, the
/// recordings of the run are distinct, and every recording that the run has
/// not finished with waits in the ledger as the run knows it. For the
/// recording that is up for submission the ledger has the attempts that the
/// run counts; for those to come it has the attempts that the run saw when it
/// began.
pub open spec fn tracks(run: RunModel, rows: Seq<LedgerRow>) -> bool {
    &&& run.wf()
    &&& consistent(rows)
    &&& forall|a: int, b: int|
        0 <= a < b < run.pending.len() ==> (#[trigger] run.pending[a]).0.id@ != (
        #[trigger] run.pending[b]).0.id@
    &&& forall|k: int|
        run.cursor <= k < run.pending.len() ==> {
            &&& waits_as(rows, #[trigger] run.pending[k])
            &&& attempts_in(rows, run.pending[k].0.id@) == if k == run.cursor && run.awaiting
                == Awaiting::Delivery {
                run.attempts
            } else {
                run.pending[k].1.attempts
            }
        }
}

/// A run belongs together with the ledger it began on.
pub proof fn lemma_begin_tracks(
    rows: Seq<LedgerRow>,
    force: bool,
    audio: AudioConfig,
    upload: UploadConfig,
)
    requires
        consistent(rows),
        rows.len() <= usize::MAX,
    ensures
        tracks(RunModel::begin(pending_of(rows), force, audio, upload), rows),
{
    let pending = pending_of(rows);
    lemma_pending_len(rows);
    assert forall|a: int, b: int| 0 <= a < b < pending.len() implies (
    #[trigger] pending[a]).0.id@ != (#[trigger] pending[b]).0.id@ by {
        lemma_source_of(rows, a);
        lemma_source_of(rows, b);
        lemma_source_order(rows, a, b);
        assert(rows[source_of(rows, a)].recording.id@ != rows[source_of(rows, b)].recording.id@);
    }
    assert forall|k: int| 0 <= k < pending.len() implies waits_as(rows, #[trigger] pending[k])
        && attempts_in(rows, pending[k].0.id@) == pending[k].1.attempts by {
        lemma_source_of(rows, k);
        lemma_position(rows, source_of(rows, k));
    }
}

/// A run that belongs together with the ledger stays so when it learns of
/// a file; the ledger is not touched.
pub proof fn lemma_file_checked_tracks(run: RunModel, rows: Seq<LedgerRow>, file_exists: bool)
    requires
        tracks(run, rows),
    ensures
        tracks(run.file_checked(file_exists), rows),
{
    let next = run.file_checked(file_exists);
    assert forall|k: int| next.cursor <= k < next.pending.len() implies waits_as(
        rows,
        #[trigger] next.pending[k],
    ) by {
        assert(waits_as(rows, run.pending[k]));
    }
}

/// A run that belongs together with the ledger is never refused: whatever
/// comes of a submission, the ledger takes it down, and the two still belong
/// together afterwards.
pub proof fn lemma_submission_tracks(
    run: RunModel,
    rows: Seq<LedgerRow>,
    delivered: bool,
    now: i64,
)
    requires
        tracks(run, rows),
        run.awaiting == Awaiting::Delivery,
    ensures
        in_delivery(run, rows),
        refused(rows, run.current().id@, delivered) is None,
        tracks(run_after(run, delivered), ledger_after(rows, run, delivered, now)),
{
    let id = run.current().id@;
    let i = position(rows, id);
    let after = ledger_after(rows, run, delivered, now);
    let next = run_after(run, delivered);
    assert(waits_as(rows, run.pending[run.cursor as int]));
    assert(row_consistent(rows[i]));
    if delivered {
        lemma_mark_uploaded_steps(rows, id, now);
        let between = with_uploaded_at(rows, id, now);
        lemma_row_replaced(rows, i, between[i]);
        assert(between[i].recording.id@ == id);
        lemma_position(between, i);
        lemma_row_replaced(between, i, after[i]);
        assert forall|k: int| next.cursor <= k < next.pending.len() implies waits_as(
            after,
            #[trigger] next.pending[k],
        ) && attempts_in(after, next.pending[k].0.id@) == next.pending[k].1.attempts by {
            let other = run.pending[k].0.id@;
            assert(waits_as(rows, run.pending[k]));
            assert(run.pending[run.cursor as int].0.id@ != run.pending[k].0.id@);
            let j = position(rows, other);
            assert(position(between, other) == j);
            assert(holds(between, other));
            assert(position(after, other) == j);
            assert(after[j] == rows[j]);
        }
    } else {
        lemma_failure(run, rows, now);
        lemma_row_replaced(rows, i, after[i]);
        assert forall|k: int| run.cursor < k < run.pending.len() implies waits_as(
            after,
            #[trigger] run.pending[k],
        ) && attempts_in(after, run.pending[k].0.id@) == run.pending[k].1.attempts by {
            let other = run.pending[k].0.id@;
            assert(waits_as(rows, run.pending[k]));
            assert(run.pending[run.cursor as int].0.id@ != run.pending[k].0.id@);
            let j = position(rows, other);
            assert(position(after, other) == j);
            assert(after[j] == rows[j]);
        }
        assert(waits_as(after, run.pending[run.cursor as int]));
    }
}

} // verus!
