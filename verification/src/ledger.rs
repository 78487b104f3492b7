//! The recording ledger: every completed recording with its delivery status.
//!
//! A recording waits in the upload queue from the moment it is committed
//! until it is marked uploaded. The ledger keeps each recording together with
//! its queue entry, ordered by creation time, oldest first.

use vstd::prelude::*;
use crate::quality::QcMetrics;
use crate::text::same_text;

verus! {

/// A completed recording.
#[derive(Debug)]
pub struct Recording {
    /// Unique identifier.
    pub id: String,
    /// Language code.
    pub lang: String,
    /// The text that was read, if any.
    pub prompt: Option<String>,
    /// Session average of the quality metrics.
    pub qc_metrics: QcMetrics,
    /// Creation time, seconds since the epoch.
    pub created_at: i64,
    /// Delivery time, seconds since the epoch. Set once, never cleared.
    pub uploaded_at: Option<i64>,
    /// Where the audio file lies.
    pub wav_path: String,
}

/// The upload queue entry of a recording that waits for delivery.
#[derive(Debug)]
pub struct UploadQueueEntry {
    /// The recording this entry belongs to.
    pub recording_id: String,
    /// Failed delivery attempts so far.
    pub attempts: u64,
    /// Time of the last failed attempt, seconds since the epoch.
    pub last_attempt: Option<i64>,
}

impl Clone for Recording {
    fn clone(&self) -> (copy: Recording)
        ensures
            copy == *self,
    {
        Recording {
            id: self.id.clone(),
            lang: self.lang.clone(),
            prompt: match &self.prompt {
                Some(text) => Some(text.clone()),
                None => None,
            },
            qc_metrics: self.qc_metrics,
            created_at: self.created_at,
            uploaded_at: self.uploaded_at,
            wav_path: self.wav_path.clone(),
        }
    }
}

impl Clone for UploadQueueEntry {
    fn clone(&self) -> (copy: UploadQueueEntry)
        ensures
            copy == *self,
    {
        UploadQueueEntry {
            recording_id: self.recording_id.clone(),
            attempts: self.attempts,
            last_attempt: self.last_attempt,
        }
    }
}

/// One row of the ledger: a recording and, while it waits, its queue entry.
#[derive(Debug)]
pub struct LedgerRow {
    pub recording: Recording,
    pub queue: Option<UploadQueueEntry>,
}

/// Why the ledger refused an operation. A refused operation changes nothing.
#[derive(Clone, Copy, Debug, PartialEq, Eq)]
pub enum LedgerError {
    /// A recording with this identifier is in the ledger already.
    DuplicateId,
    /// The recording has been delivered already.
    AlreadyUploaded,
    /// No recording has this identifier.
    UnknownRecording,
    /// The recording has no queue entry.
    NotQueued,
    /// A stored row whose queue entry does not belong to its recording, or
    /// a stored row that waits for delivery without a queue entry.
    Inconsistent,
}

/// The queue entry a recording gets when it is committed.
pub open spec fn fresh_entry(recording: Recording) -> UploadQueueEntry {
    UploadQueueEntry { recording_id: recording.id, attempts: 0, last_attempt: None }
}

/// Whether a row is in order by itself: a queue entry names its recording,
/// and a recording that waits for delivery has its entry.
pub open spec fn row_recoverable(row: LedgerRow) -> bool {
    &&& row.queue matches Some(entry) ==> entry.recording_id@ == row.recording.id@
    &&& row.recording.uploaded_at is None ==> row.queue is Some
}

/// Whether a row is consistent: it has a queue entry exactly while its
/// recording waits for delivery.
pub open spec fn row_consistent(row: LedgerRow) -> bool {
    &&& row_recoverable(row)
    &&& row.queue is Some ==> row.recording.uploaded_at is None
}

/// No two rows share an identifier.
pub open spec fn unique_ids(rows: Seq<LedgerRow>) -> bool {
    forall|i: int, j: int|
        0 <= i < j < rows.len() ==> (#[trigger] rows[i]).recording.id@ != (
        #[trigger] rows[j]).recording.id@
}

/// The rows are in order of creation, oldest first.
pub open spec fn oldest_first(rows: Seq<LedgerRow>) -> bool {
    forall|i: int, j: int|
        0 <= i < j < rows.len() ==> (#[trigger] rows[i]).recording.created_at <= (
        #[trigger] rows[j]).recording.created_at
}

/// What holds of a ledger at every moment, also between the two steps of
/// marking a recording uploaded: identifiers are unique, rows are oldest
/// first, and every row is in order by itself. A delivered recording may
/// still have a stray queue entry.
pub open spec fn recoverable(rows: Seq<LedgerRow>) -> bool {
    &&& unique_ids(rows)
    &&& oldest_first(rows)
    &&& forall|i: int| 0 <= i < rows.len() ==> row_recoverable(#[trigger] rows[i])
}

/// What holds of a ledger between operations: it is recoverable, and a
/// queue entry exists if and only if its recording waits for delivery.
pub open spec fn consistent(rows: Seq<LedgerRow>) -> bool {
    &&& recoverable(rows)
    &&& forall|i: int| 0 <= i < rows.len() ==> row_consistent(#[trigger] rows[i])
}

/// Whether a recording with this identifier is in the ledger.
pub open spec fn holds(rows: Seq<LedgerRow>, id: Seq<char>) -> bool {
    exists|i: int| 0 <= i < rows.len() && (#[trigger] rows[i]).recording.id@ == id
}

/// The row index of the recording with this identifier.
pub open spec fn position(rows: Seq<LedgerRow>, id: Seq<char>) -> int {
    choose|i: int| 0 <= i < rows.len() && (#[trigger] rows[i]).recording.id@ == id
}

/// How many queue entries there are for this identifier.
pub open spec fn entries_for(rows: Seq<LedgerRow>, id: Seq<char>) -> nat
    decreases rows.len(),
{
    if rows.len() == 0 {
        0
    } else {
        entries_for(rows.drop_last(), id) + match rows.last().queue {
            Some(entry) => if entry.recording_id@ == id {
                1nat
            } else {
                0nat
            },
            None => 0nat,
        }
    }
}

/// Where a recording created at `created_at` goes: behind every row that
/// is not younger.
pub open spec fn insertion_point(rows: Seq<LedgerRow>, created_at: i64) -> int
    decreases rows.len(),
{
    if rows.len() == 0 {
        0
    } else if rows.last().recording.created_at <= created_at {
        rows.len() as int
    } else {
        insertion_point(rows.drop_last(), created_at)
    }
}

/// The ledger after a stored row was put back in its place.
pub open spec fn restored(rows: Seq<LedgerRow>, row: LedgerRow) -> Seq<LedgerRow> {
    rows.insert(insertion_point(rows, row.recording.created_at), row)
}

/// The ledger after `recording` was committed: the recording and its fresh
/// queue entry, in one row.
pub open spec fn committed(rows: Seq<LedgerRow>, recording: Recording) -> Seq<LedgerRow> {
    restored(rows, LedgerRow { recording, queue: Some(fresh_entry(recording)) })
}

/// The ledger after the first step of marking a recording uploaded: the
/// delivery time is set, the queue entry is still there.
pub open spec fn with_uploaded_at(rows: Seq<LedgerRow>, id: Seq<char>, timestamp: i64) -> Seq<
    LedgerRow,
> {
    let i = position(rows, id);
    rows.update(
        i,
        LedgerRow {
            recording: Recording { uploaded_at: Some(timestamp), ..rows[i].recording },
            queue: rows[i].queue,
        },
    )
}

/// The ledger after the queue entry of a recording was deleted.
pub open spec fn without_entry(rows: Seq<LedgerRow>, id: Seq<char>) -> Seq<LedgerRow> {
    let i = position(rows, id);
    rows.update(i, LedgerRow { recording: rows[i].recording, queue: None })
}

/// A row without its queue entry if its recording is delivered, else as it
/// is.
pub open spec fn row_swept(row: LedgerRow) -> LedgerRow {
    LedgerRow {
        recording: row.recording,
        queue: if row.recording.uploaded_at is Some {
            None
        } else {
            row.queue
        },
    }
}

/// The ledger after every stray queue entry was deleted.
pub open spec fn swept(rows: Seq<LedgerRow>) -> Seq<LedgerRow> {
    Seq::new(rows.len(), |j: int| row_swept(rows[j]))
}

/// The ledger after a recording was marked uploaded: both steps.
pub open spec fn marked_uploaded(rows: Seq<LedgerRow>, id: Seq<char>, timestamp: i64) -> Seq<
    LedgerRow,
> {
    without_entry(with_uploaded_at(rows, id, timestamp), id)
}

/// The ledger after a failed attempt was written down.
pub open spec fn with_failure(
    rows: Seq<LedgerRow>,
    id: Seq<char>,
    attempts: u64,
    now: i64,
) -> Seq<LedgerRow> {
    let i = position(rows, id);
    rows.update(
        i,
        LedgerRow {
            recording: rows[i].recording,
            queue: Some(
                UploadQueueEntry {
                    recording_id: rows[i].queue->0.recording_id,
                    attempts,
                    last_attempt: Some(now),
                },
            ),
        },
    )
}

/// The recordings that wait for delivery, each with its queue entry, in
/// ledger order. A delivered recording is not among them, even with a stray
/// queue entry.
pub open spec fn pending_of(rows: Seq<LedgerRow>) -> Seq<(Recording, UploadQueueEntry)>
    decreases rows.len(),
{
    if rows.len() == 0 {
        Seq::empty()
    } else {
        let rest = pending_of(rows.drop_last());
        let row = rows.last();
        if row.recording.uploaded_at is None && row.queue is Some {
            rest.push((row.recording, row.queue->0))
        } else {
            rest
        }
    }
}

/// The recording ledger.
pub struct Ledger {
    rows: Vec<LedgerRow>,
}

impl View for Ledger {
    type V = Seq<LedgerRow>;

    closed spec fn view(&self) -> Seq<LedgerRow> {
        self.rows@
    }
}

impl Ledger {
    /// An empty ledger.
    pub fn new() -> (ledger: Ledger)
        ensures
            ledger@ == Seq::<LedgerRow>::empty(),
            consistent(ledger@),
    {
        Ledger { rows: Vec::new() }
    }

    /// How many recordings the ledger holds.
    pub fn len(&self) -> (count: usize)
        ensures
            count == self@.len(),
    {
        self.rows.len()
    }

    /// The row index of the recording with this identifier, if there is one.
    pub fn find(&self, id: &str) -> (found: Option<usize>)
        ensures
            found is Some <==> holds(self@, id@),
            found matches Some(i) ==> i < self@.len() && self@[i as int].recording.id@ == id@,
            unique_ids(self@) ==> (found matches Some(i) ==> i == position(self@, id@)),
    {
        let n: usize = self.rows.len();
        let mut i: usize = 0;
        while i < n
            invariant
                n == self.rows@.len(),
                i <= n,
                forall|j: int| 0 <= j < i ==> (#[trigger] self.rows@[j]).recording.id@ != id@,
            decreases n - i,
        {
            if same_text(self.rows[i].recording.id.as_str(), id) {
                return Some(i);
            }
            i = i + 1;
        }
        None
    }

    /// The row at `index`.
    pub fn row(&self, index: usize) -> (row: &LedgerRow)
        requires
            index < self@.len(),
        ensures
            *row == self@[index as int],
    {
        &self.rows[index]
    }

    /// Puts a stored row back into the ledger, at its place by creation
    /// time. The row must be in order by itself and its identifier new.
    pub fn restore(&mut self, row: LedgerRow) -> (done: Result<(), LedgerError>)
        requires
            recoverable(old(self)@),
        ensures
            recoverable(final(self)@),
            match done {
                Ok(()) => row_recoverable(row) && !holds(old(self)@, row.recording.id@)
                    && final(self)@ == restored(old(self)@, row),
                Err(LedgerError::Inconsistent) => !row_recoverable(row) && final(self)@ == old(self)@,
                Err(LedgerError::DuplicateId) => row_recoverable(row) && holds(
                    old(self)@,
                    row.recording.id@,
                ) && final(self)@ == old(self)@,
                Err(_) => false,
            },
            consistent(old(self)@) && row_consistent(row) ==> consistent(final(self)@),
    {
        let in_order: bool = match &row.queue {
            Some(entry) => same_text(entry.recording_id.as_str(), row.recording.id.as_str()),
            None => row.recording.uploaded_at.is_some(),
        };
        if !in_order {
            return Err(LedgerError::Inconsistent);
        }
        if self.find(row.recording.id.as_str()).is_some() {
            return Err(LedgerError::DuplicateId);
        }
        let created_at: i64 = row.recording.created_at;
        let mut at: usize = self.rows.len();
        assert(self.rows@.take(at as int) =~= self.rows@);
        while at > 0 && self.rows[at - 1].recording.created_at > created_at
            invariant
                self.rows@ == old(self).rows@,
                at <= self.rows@.len(),
                insertion_point(self.rows@, created_at) == insertion_point(
                    self.rows@.take(at as int),
                    created_at,
                ),
            decreases at,
        {
            assert(self.rows@.take(at as int).drop_last() =~= self.rows@.take(at as int - 1));
            at = at - 1;
        }
        proof {
            assert(at == insertion_point(self.rows@, created_at));
            lemma_restored(self.rows@, row);
        }
        self.rows.insert(at, row);
        Ok(())
    }

    /// Commits a finished recording: the recording and its queue entry,
    /// with no attempt made yet, enter the ledger together.
    pub fn commit(&mut self, recording: Recording) -> (done: Result<(), LedgerError>)
        requires
            consistent(old(self)@),
        ensures
            consistent(final(self)@),
            match done {
                Ok(()) => recording.uploaded_at is None && !holds(old(self)@, recording.id@)
                    && final(self)@ == committed(old(self)@, recording),
                Err(LedgerError::AlreadyUploaded) => recording.uploaded_at is Some && final(self)@ == old(self)@,
                Err(LedgerError::DuplicateId) => recording.uploaded_at is None && holds(
                    old(self)@,
                    recording.id@,
                ) && final(self)@ == old(self)@,
                Err(_) => false,
            },
    {
        if recording.uploaded_at.is_some() {
            return Err(LedgerError::AlreadyUploaded);
        }
        let entry = UploadQueueEntry {
            recording_id: recording.id.clone(),
            attempts: 0,
            last_attempt: None,
        };
        self.restore(LedgerRow { recording, queue: Some(entry) })
    }

    /// First step of marking a recording uploaded: sets its delivery time.
    /// The queue entry stays until `delete_queue_entry`; a ledger read in
    /// between does not list the recording as pending.
    pub fn set_uploaded_at(&mut self, id: &str, timestamp: i64) -> (done: Result<(), LedgerError>)
        requires
            recoverable(old(self)@),
        ensures
            recoverable(final(self)@),
            match done {
                Ok(()) => holds(old(self)@, id@) && old(self)@[position(
                    old(self)@,
                    id@,
                )].recording.uploaded_at is None && final(self)@ == with_uploaded_at(
                    old(self)@,
                    id@,
                    timestamp,
                ),
                Err(LedgerError::UnknownRecording) => !holds(old(self)@, id@) && final(self)@
                    == old(self)@,
                Err(LedgerError::AlreadyUploaded) => holds(old(self)@, id@) && old(self)@[position(
                    old(self)@,
                    id@,
                )].recording.uploaded_at is Some && final(self)@ == old(self)@,
                Err(_) => false,
            },
    {
        let i: usize = match self.find(id) {
            Some(i) => i,
            None => {
                return Err(LedgerError::UnknownRecording);
            },
        };
        if self.rows[i].recording.uploaded_at.is_some() {
            return Err(LedgerError::AlreadyUploaded);
        }
        let mut row: LedgerRow = self.rows.remove(i);
        row.recording.uploaded_at = Some(timestamp);
        proof {
            lemma_row_replaced(old(self)@, i as int, row);
            assert(self.rows@.insert(i as int, row) =~= old(self)@.update(i as int, row));
        }
        self.rows.insert(i, row);
        Ok(())
    }

    /// Deletes the queue entry of a recording. Deleting the entry of a
    /// recording that is not delivered would lose it for upload, and is
    /// refused.
    pub fn delete_queue_entry(&mut self, id: &str) -> (done: Result<(), LedgerError>)
        requires
            recoverable(old(self)@),
        ensures
            recoverable(final(self)@),
            match done {
                Ok(()) => holds(old(self)@, id@) && old(self)@[position(
                    old(self)@,
                    id@,
                )].recording.uploaded_at is Some && final(self)@ == without_entry(old(self)@, id@),
                Err(LedgerError::UnknownRecording) => !holds(old(self)@, id@) && final(self)@
                    == old(self)@,
                Err(LedgerError::NotQueued) => holds(old(self)@, id@) && old(self)@[position(
                    old(self)@,
                    id@,
                )].recording.uploaded_at is None && final(self)@ == old(self)@,
                Err(_) => false,
            },
            consistent(old(self)@) ==> consistent(final(self)@),
    {
        let i: usize = match self.find(id) {
            Some(i) => i,
            None => {
                return Err(LedgerError::UnknownRecording);
            },
        };
        if self.rows[i].recording.uploaded_at.is_none() {
            return Err(LedgerError::NotQueued);
        }
        let mut row: LedgerRow = self.rows.remove(i);
        row.queue = None;
        proof {
            lemma_row_replaced(old(self)@, i as int, row);
            assert(self.rows@.insert(i as int, row) =~= old(self)@.update(i as int, row));
        }
        self.rows.insert(i, row);
        Ok(())
    }

    /// Deletes the queue entry of every delivered recording that still has
    /// one: what is left to do where marking a recording uploaded was cut
    /// short between its two steps. Returns how many entries were deleted.
    pub fn sweep(&mut self) -> (deleted: usize)
        requires
            recoverable(old(self)@),
        ensures
            final(self)@ == swept(old(self)@),
            consistent(final(self)@),
            consistent(old(self)@) ==> final(self)@ == old(self)@ && deleted == 0,
    {
        let n: usize = self.rows.len();
        let mut deleted: usize = 0;
        let mut i: usize = 0;
        while i < n
            invariant
                n == self.rows@.len(),
                n == old(self).rows@.len(),
                i <= n,
                deleted <= i,
                recoverable(self.rows@),
                forall|j: int| 0 <= j < i ==> (#[trigger] self.rows@[j]) == swept(old(self).rows@)[j],
                forall|j: int| i <= j < n ==> (#[trigger] self.rows@[j]) == old(self).rows@[j],
                consistent(old(self).rows@) ==> deleted == 0,
            decreases n - i,
        {
            let stray: bool = self.rows[i].recording.uploaded_at.is_some()
                && self.rows[i].queue.is_some();
            if stray {
                let ghost before = self.rows@;
                let mut row: LedgerRow = self.rows.remove(i);
                row.queue = None;
                proof {
                    assert(!row_consistent(old(self).rows@[i as int]));
                    lemma_row_replaced(before, i as int, row);
                    assert(self.rows@.insert(i as int, row) =~= before.update(i as int, row));
                }
                self.rows.insert(i, row);
                deleted = deleted + 1;
            }
            i = i + 1;
        }
        proof {
            assert(self.rows@ =~= swept(old(self).rows@));
            lemma_swept(old(self).rows@);
            if consistent(old(self).rows@) {
                assert(swept(old(self).rows@) =~= old(self).rows@);
            }
        }
        deleted
    }

    /// Marks a recording uploaded: sets its delivery time, then deletes its
    /// queue entry.
    pub fn mark_uploaded(&mut self, id: &str, timestamp: i64) -> (done: Result<(), LedgerError>)
        requires
            consistent(old(self)@),
        ensures
            consistent(final(self)@),
            match done {
                Ok(()) => holds(old(self)@, id@) && old(self)@[position(
                    old(self)@,
                    id@,
                )].recording.uploaded_at is None && final(self)@ == marked_uploaded(
                    old(self)@,
                    id@,
                    timestamp,
                ),
                Err(LedgerError::UnknownRecording) => !holds(old(self)@, id@) && final(self)@
                    == old(self)@,
                Err(LedgerError::AlreadyUploaded) => holds(old(self)@, id@) && old(self)@[position(
                    old(self)@,
                    id@,
                )].recording.uploaded_at is Some && final(self)@ == old(self)@,
                Err(_) => false,
            },
    {
        match self.set_uploaded_at(id, timestamp) {
            Ok(()) => {},
            Err(e) => {
                return Err(e);
            },
        }
        proof {
            lemma_mark_uploaded(old(self)@, id@, timestamp);
        }
        self.delete_queue_entry(id)
    }

    /// Writes a failed delivery attempt down: the new attempt count and the
    /// time of the attempt.
    pub fn record_failure(&mut self, id: &str, attempts: u64, now: i64) -> (done: Result<
        (),
        LedgerError,
    >)
        requires
            consistent(old(self)@),
        ensures
            consistent(final(self)@),
            match done {
                Ok(()) => holds(old(self)@, id@) && old(self)@[position(old(self)@, id@)].queue
                    is Some && final(self)@ == with_failure(old(self)@, id@, attempts, now),
                Err(LedgerError::UnknownRecording) => !holds(old(self)@, id@) && final(self)@
                    == old(self)@,
                Err(LedgerError::NotQueued) => holds(old(self)@, id@) && old(self)@[position(
                    old(self)@,
                    id@,
                )].queue is None && final(self)@ == old(self)@,
                Err(_) => false,
            },
    {
        let i: usize = match self.find(id) {
            Some(i) => i,
            None => {
                return Err(LedgerError::UnknownRecording);
            },
        };
        if self.rows[i].queue.is_none() {
            return Err(LedgerError::NotQueued);
        }
        let mut row: LedgerRow = self.rows.remove(i);
        let entry: UploadQueueEntry = match row.queue {
            Some(entry) => UploadQueueEntry {
                recording_id: entry.recording_id,
                attempts,
                last_attempt: Some(now),
            },
            None => UploadQueueEntry {
                recording_id: row.recording.id.clone(),
                attempts,
                last_attempt: Some(now),
            },
        };
        row.queue = Some(entry);
        proof {
            assert(row_consistent(old(self)@[i as int]));
            lemma_row_replaced(old(self)@, i as int, row);
            assert(self.rows@.insert(i as int, row) =~= old(self)@.update(i as int, row));
        }
        self.rows.insert(i, row);
        Ok(())
    }

    /// The recordings that wait for delivery, each with its queue entry,
    /// oldest first.
    pub fn list_pending(&self) -> (pending: Vec<(Recording, UploadQueueEntry)>)
        ensures
            pending@ == pending_of(self@),
            pending@.len() <= self@.len() <= usize::MAX,
    {
        proof {
            lemma_pending_len(self@);
        }
        let n: usize = self.rows.len();
        let mut pending: Vec<(Recording, UploadQueueEntry)> = Vec::new();
        let mut i: usize = 0;
        while i < n
            invariant
                n == self.rows@.len(),
                i <= n,
                pending@ == pending_of(self.rows@.take(i as int)),
            decreases n - i,
        {
            assert(self.rows@.take(i as int + 1).drop_last() =~= self.rows@.take(i as int));
            let row: &LedgerRow = &self.rows[i];
            if row.recording.uploaded_at.is_none() {
                if let Some(entry) = &row.queue {
                    pending.push((row.recording.clone(), entry.clone()));
                }
            }
            i = i + 1;
        }
        assert(self.rows@.take(n as int) =~= self.rows@);
        pending
    }
}

/// Replacing a row by one with the same identifier and creation time, in
/// order by itself, keeps the ledger recoverable, and consistent if it was so
/// and the new row is.
pub proof fn lemma_row_replaced(rows: Seq<LedgerRow>, i: int, row: LedgerRow)
    requires
        recoverable(rows),
        0 <= i < rows.len(),
        row.recording.id@ == rows[i].recording.id@,
        row.recording.created_at == rows[i].recording.created_at,
        row_recoverable(row),
    ensures
        recoverable(rows.update(i, row)),
        consistent(rows) && row_consistent(row) ==> consistent(rows.update(i, row)),
        position(rows.update(i, row), row.recording.id@) == i,
        position(rows, row.recording.id@) == i,
        forall|id: Seq<char>| holds(rows.update(i, row), id) == holds(rows, id),
        forall|id: Seq<char>|
            holds(rows, id) ==> position(#[trigger] rows.update(i, row), id) == position(rows, id),
{
    let after = rows.update(i, row);
    assert forall|a: int, b: int| 0 <= a < b < after.len() implies (
    #[trigger] after[a]).recording.id@ != (#[trigger] after[b]).recording.id@ by {
        assert(rows[a].recording.id@ != rows[b].recording.id@);
    }
    assert forall|a: int, b: int| 0 <= a < b < after.len() implies (
    #[trigger] after[a]).recording.created_at <= (
    #[trigger] after[b]).recording.created_at by {
        assert(rows[a].recording.created_at <= rows[b].recording.created_at);
    }
    assert forall|a: int| 0 <= a < after.len() implies row_recoverable(#[trigger] after[a]) by {
        assert(row_recoverable(rows[a]));
    }
    if consistent(rows) && row_consistent(row) {
        assert forall|a: int| 0 <= a < after.len() implies row_consistent(
            #[trigger] after[a],
        ) by {
            assert(row_consistent(rows[a]));
        }
    }
    lemma_position(rows, i);
    lemma_position(after, i);
    assert forall|id: Seq<char>| holds(after, id) == holds(rows, id) by {
        if holds(rows, id) {
            let k = position(rows, id);
            assert(after[k].recording.id@ == id);
        }
        if holds(after, id) {
            let k = position(after, id);
            assert(rows[k].recording.id@ == id);
        }
    }
    assert forall|id: Seq<char>| holds(rows, id) implies position(
        #[trigger] rows.update(i, row),
        id,
    ) == position(rows, id) by {
        let k = position(rows, id);
        assert(after[k].recording.id@ == id);
        lemma_position(after, k);
    }
}

/// In a ledger with unique identifiers, the position of the identifier of
/// row `i` is `i`.
pub proof fn lemma_position(rows: Seq<LedgerRow>, i: int)
    requires
        unique_ids(rows),
        0 <= i < rows.len(),
    ensures
        holds(rows, rows[i].recording.id@),
        position(rows, rows[i].recording.id@) == i,
{
    let id = rows[i].recording.id@;
    assert(rows[i].recording.id@ == id);
    let k = position(rows, id);
    if k < i {
        assert(rows[k].recording.id@ != rows[i].recording.id@);
    } else if i < k {
        assert(rows[i].recording.id@ != rows[k].recording.id@);
    }
}

/// Marking a recording that waits for delivery uploaded takes a consistent
/// ledger to a consistent one, through a recoverable one.
pub proof fn lemma_mark_uploaded(rows: Seq<LedgerRow>, id: Seq<char>, timestamp: i64)
    requires
        consistent(rows),
        holds(rows, id),
    ensures
        recoverable(with_uploaded_at(rows, id, timestamp)),
        holds(with_uploaded_at(rows, id, timestamp), id),
        position(with_uploaded_at(rows, id, timestamp), id) == position(rows, id),
        consistent(marked_uploaded(rows, id, timestamp)),
{
    let i = position(rows, id);
    let first = with_uploaded_at(rows, id, timestamp);
    assert(row_consistent(rows[i]));
    lemma_row_replaced(rows, i, first[i]);
    let second = marked_uploaded(rows, id, timestamp);
    assert(first[i].recording.id@ == id);
    lemma_position(first, i);
    lemma_row_replaced(first, i, second[i]);
    assert forall|a: int| 0 <= a < second.len() implies row_consistent(#[trigger] second[a]) by {
        if a != i {
            assert(second[a] == rows[a]);
            assert(row_consistent(rows[a]));
        }
    }
}

/// The insertion point lies within the ledger; if the ledger is oldest
/// first, no row before it is younger than `created_at` and every row from
/// it on is.
pub proof fn lemma_insertion_point(rows: Seq<LedgerRow>, created_at: i64)
    ensures
        0 <= insertion_point(rows, created_at) <= rows.len(),
        forall|i: int|
            insertion_point(rows, created_at) <= i < rows.len() ==> (
            #[trigger] rows[i]).recording.created_at > created_at,
        oldest_first(rows) ==> forall|i: int|
            0 <= i < insertion_point(rows, created_at) ==> (
            #[trigger] rows[i]).recording.created_at <= created_at,
    decreases rows.len(),
{
    if rows.len() > 0 {
        let rest = rows.drop_last();
        lemma_insertion_point(rest, created_at);
        assert forall|i: int| 0 <= i < rest.len() implies rest[i] == rows[i] by {}
        if oldest_first(rows) {
            assert(oldest_first(rest)) by {
                assert forall|i: int, j: int| 0 <= i < j < rest.len() implies (
                #[trigger] rest[i]).recording.created_at <= (
                #[trigger] rest[j]).recording.created_at by {
                    assert(rest[i] == rows[i] && rest[j] == rows[j]);
                }
            }
            if rows.last().recording.created_at <= created_at {
                assert forall|i: int| 0 <= i < rows.len() implies (
                #[trigger] rows[i]).recording.created_at <= created_at by {
                    if i < rows.len() - 1 {
                        assert(rows[i].recording.created_at <= rows[rows.len()
                            - 1].recording.created_at);
                    }
                }
            }
        }
    }
}

/// Putting a row that is in order by itself, with a new identifier, back
/// in its place keeps the ledger recoverable, and consistent if it was so
/// and the row is.
pub proof fn lemma_restored(rows: Seq<LedgerRow>, row: LedgerRow)
    requires
        recoverable(rows),
        row_recoverable(row),
        !holds(rows, row.recording.id@),
    ensures
        recoverable(restored(rows, row)),
        consistent(rows) && row_consistent(row) ==> consistent(restored(rows, row)),
{
    let at = insertion_point(rows, row.recording.created_at);
    lemma_insertion_point(rows, row.recording.created_at);
    let after = restored(rows, row);
    assert forall|i: int| 0 <= i < after.len() implies (#[trigger] after[i]) == (if i < at {
        rows[i]
    } else if i == at {
        row
    } else {
        rows[i - 1]
    }) by {}
    assert forall|i: int, j: int| 0 <= i < j < after.len() implies (
    #[trigger] after[i]).recording.id@ != (#[trigger] after[j]).recording.id@ by {
        let oi = if i < at { i } else { i - 1 };
        let oj = if j < at { j } else { j - 1 };
        if i != at && j != at {
            assert(rows[oi].recording.id@ != rows[oj].recording.id@);
        } else if i == at {
            assert(rows[oj].recording.id@ != row.recording.id@);
        } else {
            assert(rows[oi].recording.id@ != row.recording.id@);
        }
    }
    assert forall|i: int, j: int| 0 <= i < j < after.len() implies (
    #[trigger] after[i]).recording.created_at <= (
    #[trigger] after[j]).recording.created_at by {
        let oi = if i < at { i } else { i - 1 };
        let oj = if j < at { j } else { j - 1 };
        if i != at && j != at {
            assert(rows[oi].recording.created_at <= rows[oj].recording.created_at);
        } else if i == at {
            assert(rows[oj].recording.created_at > row.recording.created_at);
        } else {
            assert(rows[oi].recording.created_at <= row.recording.created_at);
        }
    }
    assert forall|i: int| 0 <= i < after.len() implies row_recoverable(#[trigger] after[i]) by {
        let oi = if i < at { i } else { i - 1 };
        if i != at {
            assert(row_recoverable(rows[oi]));
        }
    }
    if consistent(rows) && row_consistent(row) {
        assert forall|i: int| 0 <= i < after.len() implies row_consistent(
            #[trigger] after[i],
        ) by {
            let oi = if i < at { i } else { i - 1 };
            if i != at {
                assert(row_consistent(rows[oi]));
            }
        }
    }
}

/// Whether a row waits for delivery: not delivered, and queued.
pub open spec fn row_pending(row: LedgerRow) -> bool {
    row.recording.uploaded_at is None && row.queue is Some
}

/// Whether the pending list names the recording with this identifier.
pub open spec fn lists(pending: Seq<(Recording, UploadQueueEntry)>, id: Seq<char>) -> bool {
    exists|k: int| 0 <= k < pending.len() && (#[trigger] pending[k]).0.id@ == id
}

/// In a recoverable ledger there is one queue entry for an identifier if
/// its recording is there with an entry, and none otherwise.
pub proof fn lemma_entries_for(rows: Seq<LedgerRow>, id: Seq<char>)
    requires
        recoverable(rows),
    ensures
        entries_for(rows, id) == (if holds(rows, id) && rows[position(rows, id)].queue is Some {
            1nat
        } else {
            0nat
        }),
    decreases rows.len(),
{
    if rows.len() > 0 {
        let rest = rows.drop_last();
        let last = rows.len() - 1;
        assert forall|i: int| 0 <= i < rest.len() implies rest[i] == rows[i] by {}
        assert(recoverable(rest)) by {
            assert forall|i: int, j: int| 0 <= i < j < rest.len() implies (
            #[trigger] rest[i]).recording.id@ != (#[trigger] rest[j]).recording.id@ by {
                assert(rows[i].recording.id@ != rows[j].recording.id@);
            }
            assert forall|i: int, j: int| 0 <= i < j < rest.len() implies (
            #[trigger] rest[i]).recording.created_at <= (
            #[trigger] rest[j]).recording.created_at by {
                assert(rows[i].recording.created_at <= rows[j].recording.created_at);
            }
            assert forall|i: int| 0 <= i < rest.len() implies row_recoverable(
                #[trigger] rest[i],
            ) by {
                assert(row_recoverable(rows[i]));
            }
        }
        lemma_entries_for(rest, id);
        assert(row_recoverable(rows[last]));
        if holds(rest, id) {
            let k = position(rest, id);
            assert(rows[k].recording.id@ == id);
            lemma_position(rows, k);
            assert(rows[k].recording.id@ != rows[last].recording.id@);
        } else if rows[last].recording.id@ == id {
            lemma_position(rows, last);
        } else {
            if holds(rows, id) {
                let k = position(rows, id);
                assert(rest[k].recording.id@ == id);
            }
        }
    }
}

/// The pending list is no longer than the ledger.
pub proof fn lemma_pending_len(rows: Seq<LedgerRow>)
    ensures
        pending_of(rows).len() <= rows.len(),
    decreases rows.len(),
{
    if rows.len() > 0 {
        lemma_pending_len(rows.drop_last());
    }
}

/// The recording of a row together with its queue entry.
pub open spec fn pair_of(row: LedgerRow) -> (Recording, UploadQueueEntry) {
    (row.recording, row.queue->0)
}

/// The row from which item `k` of the pending list was taken.
pub open spec fn source_of(rows: Seq<LedgerRow>, k: int) -> int
    decreases rows.len(),
{
    if rows.len() == 0 {
        0
    } else if k < pending_of(rows.drop_last()).len() {
        source_of(rows.drop_last(), k)
    } else {
        rows.len() - 1
    }
}

/// Item `k` of the pending list is the pair of its source row, and that
/// row waits for delivery.
pub proof fn lemma_source_of(rows: Seq<LedgerRow>, k: int)
    requires
        0 <= k < pending_of(rows).len(),
    ensures
        0 <= source_of(rows, k) < rows.len(),
        row_pending(rows[source_of(rows, k)]),
        pending_of(rows)[k] == pair_of(rows[source_of(rows, k)]),
    decreases rows.len(),
{
    if rows.len() > 0 {
        let rest = rows.drop_last();
        if k < pending_of(rest).len() {
            lemma_source_of(rest, k);
            assert(rest[source_of(rest, k)] == rows[source_of(rest, k)]);
        }
    }
}

/// Later items of the pending list come from later rows.
pub proof fn lemma_source_order(rows: Seq<LedgerRow>, a: int, b: int)
    requires
        0 <= a < b < pending_of(rows).len(),
    ensures
        source_of(rows, a) < source_of(rows, b),
    decreases rows.len(),
{
    if rows.len() > 0 {
        let rest = rows.drop_last();
        if b < pending_of(rest).len() {
            lemma_source_order(rest, a, b);
        } else {
            lemma_source_of(rest, a);
        }
    }
}

/// A row that waits for delivery is in the pending list.
pub proof fn lemma_row_is_listed(rows: Seq<LedgerRow>, i: int) -> (k: int)
    requires
        0 <= i < rows.len(),
        row_pending(rows[i]),
    ensures
        0 <= k < pending_of(rows).len(),
        pending_of(rows)[k] == pair_of(rows[i]),
    decreases rows.len(),
{
    let rest = rows.drop_last();
    if i < rows.len() - 1 {
        assert(rest[i] == rows[i]);
        let k = lemma_row_is_listed(rest, i);
        k
    } else {
        pending_of(rows).len() - 1
    }
}

/// What the pending list holds: exactly the rows that wait for delivery,
/// each with its own queue entry, in ledger order, which is oldest first.
pub proof fn lemma_pending_of(rows: Seq<LedgerRow>)
    ensures
        forall|k: int|
            0 <= k < pending_of(rows).len() ==> {
                &&& 0 <= #[trigger] source_of(rows, k) < rows.len()
                &&& row_pending(rows[source_of(rows, k)])
                &&& pending_of(rows)[k] == pair_of(rows[source_of(rows, k)])
            },
        forall|i: int|
            0 <= i < rows.len() && row_pending(#[trigger] rows[i]) ==> exists|k: int|
                0 <= k < pending_of(rows).len() && #[trigger] pending_of(rows)[k] == pair_of(
                    rows[i],
                ),
        oldest_first(rows) ==> forall|a: int, b: int|
            0 <= a < b < pending_of(rows).len() ==> (#[trigger] pending_of(
                rows,
            )[a]).0.created_at <= (#[trigger] pending_of(rows)[b]).0.created_at,
{
    assert forall|k: int| 0 <= k < pending_of(rows).len() implies {
        &&& 0 <= #[trigger] source_of(rows, k) < rows.len()
        &&& row_pending(rows[source_of(rows, k)])
        &&& pending_of(rows)[k] == pair_of(rows[source_of(rows, k)])
    } by {
        lemma_source_of(rows, k);
    }
    assert forall|i: int| 0 <= i < rows.len() && row_pending(#[trigger] rows[i]) implies exists|
        k: int,
    |
        0 <= k < pending_of(rows).len() && #[trigger] pending_of(rows)[k] == pair_of(rows[i]) by {
        let k = lemma_row_is_listed(rows, i);
        assert(pending_of(rows)[k] == pair_of(rows[i]));
    }
    if oldest_first(rows) {
        assert forall|a: int, b: int| 0 <= a < b < pending_of(rows).len() implies (
        #[trigger] pending_of(rows)[a]).0.created_at <= (#[trigger] pending_of(
            rows,
        )[b]).0.created_at by {
            lemma_source_of(rows, a);
            lemma_source_of(rows, b);
            lemma_source_order(rows, a, b);
            let i = source_of(rows, a);
            let j = source_of(rows, b);
            assert(rows[i].recording.created_at <= rows[j].recording.created_at);
        }
    }
}

/// The pending list names an identifier exactly if the recording with
/// that identifier is in the ledger and waits for delivery.
pub proof fn lemma_lists(rows: Seq<LedgerRow>, id: Seq<char>)
    requires
        unique_ids(rows),
    ensures
        lists(pending_of(rows), id) <==> holds(rows, id) && row_pending(rows[position(rows, id)]),
{
    let pending = pending_of(rows);
    if lists(pending, id) {
        let k = choose|k: int| 0 <= k < pending.len() && (#[trigger] pending[k]).0.id@ == id;
        lemma_source_of(rows, k);
        lemma_position(rows, source_of(rows, k));
    }
    if holds(rows, id) && row_pending(rows[position(rows, id)]) {
        let i = position(rows, id);
        let k = lemma_row_is_listed(rows, i);
        assert(pending[k].0.id@ == id);
    }
}

/// After a commit the new recording is in the ledger as it was handed in,
/// not delivered, with exactly one queue entry, on which no attempt is
/// written down; it is listed as pending, and the ledger is consistent.
pub proof fn lemma_commit(rows: Seq<LedgerRow>, recording: Recording)
    requires
        consistent(rows),
        recording.uploaded_at is None,
        !holds(rows, recording.id@),
    ensures
        consistent(committed(rows, recording)),
        holds(committed(rows, recording), recording.id@),
        entries_for(committed(rows, recording), recording.id@) == 1,
        committed(rows, recording)[position(committed(rows, recording), recording.id@)] == (
            LedgerRow { recording, queue: Some(fresh_entry(recording)) }),
        lists(pending_of(committed(rows, recording)), recording.id@),
{
    let row = LedgerRow { recording, queue: Some(fresh_entry(recording)) };
    let after = committed(rows, recording);
    let at = insertion_point(rows, recording.created_at);
    lemma_insertion_point(rows, recording.created_at);
    lemma_restored(rows, row);
    assert(after[at] == row);
    lemma_position(after, at);
    lemma_entries_for(after, recording.id@);
    lemma_lists(after, recording.id@);
}

/// Marking a recording uploaded, step by step. After the first step the
/// delivery time is set and the recording is no longer listed as pending,
/// though its queue entry is still there: a ledger read at that point is
/// recoverable. After the second step the queue entry is gone too, and the
/// ledger is consistent again. No other recording is touched.
pub proof fn lemma_mark_uploaded_steps(rows: Seq<LedgerRow>, id: Seq<char>, timestamp: i64)
    requires
        consistent(rows),
        holds(rows, id),
        rows[position(rows, id)].recording.uploaded_at is None,
    ensures
        ({
            let between = with_uploaded_at(rows, id, timestamp);
            let i = position(rows, id);
            &&& recoverable(between)
            &&& between[i].recording.uploaded_at == Some(timestamp)
            &&& entries_for(between, id) == 1
            &&& !lists(pending_of(between), id)
        }),
        ({
            let after = marked_uploaded(rows, id, timestamp);
            let i = position(rows, id);
            &&& consistent(after)
            &&& position(after, id) == i
            &&& after[i].recording.uploaded_at == Some(timestamp)
            &&& entries_for(after, id) == 0
            &&& !lists(pending_of(after), id)
            &&& after.len() == rows.len()
            &&& forall|j: int| 0 <= j < rows.len() && j != i ==> after[j] == rows[j]
        }),
{
    let i = position(rows, id);
    let between = with_uploaded_at(rows, id, timestamp);
    let after = marked_uploaded(rows, id, timestamp);
    lemma_mark_uploaded(rows, id, timestamp);
    assert(row_consistent(rows[i]));
    lemma_entries_for(between, id);
    lemma_lists(between, id);
    assert(between[i].recording.id@ == id);
    lemma_position(between, i);
    assert(after[i].recording.id@ == id);
    lemma_position(after, i);
    lemma_entries_for(after, id);
    lemma_lists(after, id);
}

/// Deleting the stray queue entries of a recoverable ledger makes it
/// consistent, and loses no recording that waits: the pending list is the
/// same before and after.
pub proof fn lemma_swept(rows: Seq<LedgerRow>)
    requires
        recoverable(rows),
    ensures
        consistent(swept(rows)),
        pending_of(swept(rows)) == pending_of(rows),
    decreases rows.len(),
{
    let after = swept(rows);
    assert forall|i: int, j: int| 0 <= i < j < after.len() implies (
    #[trigger] after[i]).recording.id@ != (#[trigger] after[j]).recording.id@ by {
        assert(rows[i].recording.id@ != rows[j].recording.id@);
    }
    assert forall|i: int, j: int| 0 <= i < j < after.len() implies (
    #[trigger] after[i]).recording.created_at <= (
    #[trigger] after[j]).recording.created_at by {
        assert(rows[i].recording.created_at <= rows[j].recording.created_at);
    }
    assert forall|i: int| 0 <= i < after.len() implies row_consistent(#[trigger] after[i]) by {
        assert(row_recoverable(rows[i]));
    }
    if rows.len() > 0 {
        let rest = rows.drop_last();
        assert(recoverable(rest)) by {
            assert forall|i: int, j: int| 0 <= i < j < rest.len() implies (
            #[trigger] rest[i]).recording.id@ != (#[trigger] rest[j]).recording.id@ by {
                assert(rows[i].recording.id@ != rows[j].recording.id@);
            }
            assert forall|i: int, j: int| 0 <= i < j < rest.len() implies (
            #[trigger] rest[i]).recording.created_at <= (
            #[trigger] rest[j]).recording.created_at by {
                assert(rows[i].recording.created_at <= rows[j].recording.created_at);
            }
            assert forall|i: int| 0 <= i < rest.len() implies row_recoverable(
                #[trigger] rest[i],
            ) by {
                assert(row_recoverable(rows[i]));
            }
        }
        lemma_swept(rest);
        assert(after.drop_last() =~= swept(rest));
    }
}

/// When the recording with this identifier was delivered, if it is in the
/// ledger and was.
pub open spec fn delivered_at(rows: Seq<LedgerRow>, id: Seq<char>) -> Option<i64> {
    if holds(rows, id) {
        rows[position(rows, id)].recording.uploaded_at
    } else {
        None
    }
}

/// Whether `after` is `rows` after one operation of the ledger that was not
/// refused.
pub open spec fn one_step(rows: Seq<LedgerRow>, after: Seq<LedgerRow>) -> bool {
    ||| exists|row: LedgerRow|
        row_recoverable(row) && !holds(rows, row.recording.id@) && after == #[trigger] restored(
            rows,
            row,
        )
    ||| exists|id: Seq<char>, timestamp: i64|
        holds(rows, id) && rows[position(rows, id)].recording.uploaded_at is None && after
            == #[trigger] with_uploaded_at(rows, id, timestamp)
    ||| exists|id: Seq<char>| holds(rows, id) && after == #[trigger] without_entry(rows, id)
    ||| exists|id: Seq<char>, attempts: u64, now: i64|
        holds(rows, id) && rows[position(rows, id)].queue is Some && after
            == #[trigger] with_failure(rows, id, attempts, now)
    ||| after == swept(rows)
}

/// A delivery time is set once and never cleared: whatever the ledger does
/// next, a recording that was delivered stays in the ledger, delivered at the
/// same time.
pub proof fn lemma_delivery_is_kept(rows: Seq<LedgerRow>, after: Seq<LedgerRow>, id: Seq<char>)
    requires
        recoverable(rows),
        one_step(rows, after),
        delivered_at(rows, id) is Some,
    ensures
        delivered_at(after, id) == delivered_at(rows, id),
{
    let i = position(rows, id);
    assert(rows[i].recording.id@ == id);
    if exists|row: LedgerRow|
        row_recoverable(row) && !holds(rows, row.recording.id@) && after == #[trigger] restored(
            rows,
            row,
        ) {
        let row = choose|row: LedgerRow|
            row_recoverable(row) && !holds(rows, row.recording.id@) && after
                == #[trigger] restored(rows, row);
        let at = insertion_point(rows, row.recording.created_at);
        lemma_insertion_point(rows, row.recording.created_at);
        lemma_restored(rows, row);
        let j = if i < at {
            i
        } else {
            i + 1
        };
        assert(after[j] == rows[i]);
        lemma_position(after, j);
    } else if exists|other: Seq<char>, timestamp: i64|
        holds(rows, other) && rows[position(rows, other)].recording.uploaded_at is None && after
            == #[trigger] with_uploaded_at(rows, other, timestamp) {
        let (other, timestamp) = choose|other: Seq<char>, timestamp: i64|
            holds(rows, other) && rows[position(rows, other)].recording.uploaded_at is None
                && after == #[trigger] with_uploaded_at(rows, other, timestamp);
        let k = position(rows, other);
        assert(rows[k].recording.id@ == other);
        assert(row_recoverable(rows[k]));
        lemma_row_replaced(rows, k, after[k]);
        assert(after[i] == rows[i]);
    } else if exists|other: Seq<char>| holds(rows, other) && after == #[trigger] without_entry(
        rows,
        other,
    ) {
        let other = choose|other: Seq<char>|
            holds(rows, other) && after == #[trigger] without_entry(rows, other);
        let k = position(rows, other);
        assert(rows[k].recording.id@ == other);
        assert(after[i].recording == rows[i].recording);
        assert(after[i].recording.id@ == id);
        assert forall|a: int, b: int| 0 <= a < b < after.len() implies (
        #[trigger] after[a]).recording.id@ != (#[trigger] after[b]).recording.id@ by {
            assert(rows[a].recording.id@ != rows[b].recording.id@);
        }
        lemma_position(after, i);
    } else if exists|other: Seq<char>, attempts: u64, now: i64|
        holds(rows, other) && rows[position(rows, other)].queue is Some && after
            == #[trigger] with_failure(rows, other, attempts, now) {
        let (other, attempts, now) = choose|other: Seq<char>, attempts: u64, now: i64|
            holds(rows, other) && rows[position(rows, other)].queue is Some && after
                == #[trigger] with_failure(rows, other, attempts, now);
        let k = position(rows, other);
        assert(rows[k].recording.id@ == other);
        assert(after[i].recording == rows[i].recording);
        assert(after[i].recording.id@ == id);
        assert forall|a: int, b: int| 0 <= a < b < after.len() implies (
        #[trigger] after[a]).recording.id@ != (#[trigger] after[b]).recording.id@ by {
            assert(rows[a].recording.id@ != rows[b].recording.id@);
        }
        lemma_position(after, i);
    } else {
        lemma_swept(rows);
        assert(after[i].recording == rows[i].recording);
        assert(after[i].recording.id@ == id);
        lemma_position(after, i);
    }
}

} // verus!
