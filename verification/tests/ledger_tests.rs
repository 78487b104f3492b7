use cowcow::ledger::{Ledger, LedgerError, LedgerRow, Recording, UploadQueueEntry};
use cowcow::quality::QcMetrics;

fn recording(id: &str, created_at: i64) -> Recording {
    Recording {
        id: id.to_string(),
        lang: "sw".to_string(),
        prompt: None,
        qc_metrics: QcMetrics { snr_db: 25_000, clipping_pct: 0, vad_ratio: 90_000 },
        created_at,
        uploaded_at: None,
        wav_path: format!("/data/{}.wav", id),
    }
}

fn queue_entries(ledger: &Ledger, id: &str) -> usize {
    let mut count = 0;
    for i in 0..ledger.len() {
        if let Some(entry) = &ledger.row(i).queue {
            if entry.recording_id == id {
                count += 1;
            }
        }
    }
    count
}

fn pending_ids(ledger: &Ledger) -> Vec<String> {
    ledger.list_pending().iter().map(|(r, _)| r.id.clone()).collect()
}

#[test]
fn new_ledger_is_empty() {
    let ledger = Ledger::new();
    assert_eq!(ledger.len(), 0);
    assert!(ledger.list_pending().is_empty());
    assert_eq!(ledger.find("a"), None);
}

#[test]
fn commit_creates_the_recording_with_one_fresh_queue_entry() {
    let mut ledger = Ledger::new();
    assert_eq!(ledger.commit(recording("a", 10)), Ok(()));
    assert_eq!(ledger.len(), 1);
    assert_eq!(queue_entries(&ledger, "a"), 1);
    let row = ledger.row(ledger.find("a").unwrap());
    assert_eq!(row.recording.id, "a");
    assert_eq!(row.recording.uploaded_at, None);
    assert_eq!(row.recording.created_at, 10);
    let entry = row.queue.as_ref().unwrap();
    assert_eq!(entry.recording_id, "a");
    assert_eq!(entry.attempts, 0);
    assert_eq!(entry.last_attempt, None);
    assert_eq!(pending_ids(&ledger), vec!["a".to_string()]);
}

#[test]
fn commit_refuses_a_known_identifier() {
    let mut ledger = Ledger::new();
    ledger.commit(recording("a", 10)).unwrap();
    assert_eq!(ledger.commit(recording("a", 20)), Err(LedgerError::DuplicateId));
    assert_eq!(ledger.len(), 1);
    assert_eq!(ledger.row(0).recording.created_at, 10);
}

#[test]
fn commit_refuses_a_delivered_recording() {
    let mut ledger = Ledger::new();
    let mut delivered = recording("a", 10);
    delivered.uploaded_at = Some(11);
    assert_eq!(ledger.commit(delivered), Err(LedgerError::AlreadyUploaded));
    assert_eq!(ledger.len(), 0);
}

#[test]
fn mark_uploaded_sets_the_time_and_deletes_the_queue_entry() {
    let mut ledger = Ledger::new();
    ledger.commit(recording("a", 10)).unwrap();
    ledger.commit(recording("b", 20)).unwrap();
    assert_eq!(ledger.mark_uploaded("a", 99), Ok(()));
    let row = ledger.row(ledger.find("a").unwrap());
    assert_eq!(row.recording.uploaded_at, Some(99));
    assert!(row.queue.is_none());
    assert_eq!(queue_entries(&ledger, "a"), 0);
    assert_eq!(queue_entries(&ledger, "b"), 1);
    assert_eq!(pending_ids(&ledger), vec!["b".to_string()]);
}

#[test]
fn mark_uploaded_happens_once() {
    let mut ledger = Ledger::new();
    ledger.commit(recording("a", 10)).unwrap();
    ledger.mark_uploaded("a", 99).unwrap();
    assert_eq!(ledger.mark_uploaded("a", 100), Err(LedgerError::AlreadyUploaded));
    assert_eq!(ledger.row(0).recording.uploaded_at, Some(99));
}

#[test]
fn mark_uploaded_of_an_unknown_recording_is_refused() {
    let mut ledger = Ledger::new();
    ledger.commit(recording("a", 10)).unwrap();
    assert_eq!(ledger.mark_uploaded("b", 99), Err(LedgerError::UnknownRecording));
    assert_eq!(ledger.set_uploaded_at("b", 99), Err(LedgerError::UnknownRecording));
    assert_eq!(ledger.delete_queue_entry("b"), Err(LedgerError::UnknownRecording));
    assert_eq!(ledger.record_failure("b", 1, 99), Err(LedgerError::UnknownRecording));
    assert_eq!(pending_ids(&ledger), vec!["a".to_string()]);
}

#[test]
fn between_the_steps_of_mark_uploaded_the_recording_is_not_pending() {
    let mut ledger = Ledger::new();
    ledger.commit(recording("a", 10)).unwrap();
    ledger.commit(recording("b", 20)).unwrap();
    assert_eq!(ledger.set_uploaded_at("a", 99), Ok(()));
    let row = ledger.row(ledger.find("a").unwrap());
    assert_eq!(row.recording.uploaded_at, Some(99));
    assert!(row.queue.is_some());
    assert_eq!(pending_ids(&ledger), vec!["b".to_string()]);
    assert_eq!(ledger.set_uploaded_at("a", 100), Err(LedgerError::AlreadyUploaded));
    assert_eq!(ledger.delete_queue_entry("a"), Ok(()));
    let row = ledger.row(ledger.find("a").unwrap());
    assert_eq!(row.recording.uploaded_at, Some(99));
    assert!(row.queue.is_none());
    assert_eq!(pending_ids(&ledger), vec!["b".to_string()]);
}

#[test]
fn queue_entry_of_a_waiting_recording_is_not_deleted() {
    let mut ledger = Ledger::new();
    ledger.commit(recording("a", 10)).unwrap();
    assert_eq!(ledger.delete_queue_entry("a"), Err(LedgerError::NotQueued));
    assert_eq!(queue_entries(&ledger, "a"), 1);
}

#[test]
fn pending_list_is_oldest_first() {
    let mut ledger = Ledger::new();
    ledger.commit(recording("c", 30)).unwrap();
    ledger.commit(recording("a", 10)).unwrap();
    ledger.commit(recording("d", 40)).unwrap();
    ledger.commit(recording("b", 20)).unwrap();
    ledger.commit(recording("b2", 20)).unwrap();
    assert_eq!(
        pending_ids(&ledger),
        vec!["a".to_string(), "b".to_string(), "b2".to_string(), "c".to_string(), "d".to_string()]
    );
    ledger.mark_uploaded("b", 50).unwrap();
    assert_eq!(
        pending_ids(&ledger),
        vec!["a".to_string(), "b2".to_string(), "c".to_string(), "d".to_string()]
    );
    assert_eq!(ledger.find("d"), Some(4));
    assert_eq!(ledger.find("a"), Some(0));
}

#[test]
fn pending_list_carries_recording_and_entry() {
    let mut ledger = Ledger::new();
    let mut r = recording("a", 10);
    r.prompt = Some("soma hii".to_string());
    ledger.commit(r).unwrap();
    ledger.record_failure("a", 2, 77).unwrap();
    let pending = ledger.list_pending();
    assert_eq!(pending.len(), 1);
    let (rec, entry) = &pending[0];
    assert_eq!(rec.id, "a");
    assert_eq!(rec.lang, "sw");
    assert_eq!(rec.prompt, Some("soma hii".to_string()));
    assert_eq!(rec.wav_path, "/data/a.wav");
    assert_eq!(rec.qc_metrics, QcMetrics { snr_db: 25_000, clipping_pct: 0, vad_ratio: 90_000 });
    assert_eq!(entry.recording_id, "a");
    assert_eq!(entry.attempts, 2);
    assert_eq!(entry.last_attempt, Some(77));
}

#[test]
fn record_failure_writes_attempts_and_time() {
    let mut ledger = Ledger::new();
    ledger.commit(recording("a", 10)).unwrap();
    assert_eq!(ledger.record_failure("a", 1, 50), Ok(()));
    let entry = ledger.row(0).queue.as_ref().unwrap();
    assert_eq!(entry.attempts, 1);
    assert_eq!(entry.last_attempt, Some(50));
    assert_eq!(entry.recording_id, "a");
    assert_eq!(ledger.row(0).recording.uploaded_at, None);
    ledger.mark_uploaded("a", 60).unwrap();
    assert_eq!(ledger.record_failure("a", 2, 70), Err(LedgerError::NotQueued));
}

#[test]
fn restore_puts_stored_rows_back() {
    let mut ledger = Ledger::new();
    let mut delivered = recording("old", 5);
    delivered.uploaded_at = Some(6);
    assert_eq!(ledger.restore(LedgerRow { recording: delivered, queue: None }), Ok(()));
    let waiting = LedgerRow {
        recording: recording("a", 3),
        queue: Some(UploadQueueEntry {
            recording_id: "a".to_string(),
            attempts: 4,
            last_attempt: Some(9),
        }),
    };
    assert_eq!(ledger.restore(waiting), Ok(()));
    assert_eq!(ledger.len(), 2);
    assert_eq!(ledger.find("a"), Some(0));
    assert_eq!(ledger.find("old"), Some(1));
    let pending = ledger.list_pending();
    assert_eq!(pending.len(), 1);
    assert_eq!(pending[0].1.attempts, 4);
}

#[test]
fn restore_refuses_rows_that_are_out_of_order() {
    let mut ledger = Ledger::new();
    let lost = LedgerRow { recording: recording("a", 3), queue: None };
    assert_eq!(ledger.restore(lost), Err(LedgerError::Inconsistent));
    let foreign = LedgerRow {
        recording: recording("a", 3),
        queue: Some(UploadQueueEntry {
            recording_id: "b".to_string(),
            attempts: 0,
            last_attempt: None,
        }),
    };
    assert_eq!(ledger.restore(foreign), Err(LedgerError::Inconsistent));
    assert_eq!(ledger.len(), 0);
    ledger.commit(recording("a", 3)).unwrap();
    let mut again = recording("a", 4);
    again.uploaded_at = Some(5);
    assert_eq!(
        ledger.restore(LedgerRow { recording: again, queue: None }),
        Err(LedgerError::DuplicateId)
    );
}

#[test]
fn restore_takes_a_delivered_row_with_a_stray_entry() {
    let mut ledger = Ledger::new();
    let mut delivered = recording("a", 3);
    delivered.uploaded_at = Some(8);
    let row = LedgerRow {
        recording: delivered,
        queue: Some(UploadQueueEntry {
            recording_id: "a".to_string(),
            attempts: 1,
            last_attempt: Some(7),
        }),
    };
    assert_eq!(ledger.restore(row), Ok(()));
    assert!(ledger.list_pending().is_empty());
    assert_eq!(ledger.delete_queue_entry("a"), Ok(()));
    assert!(ledger.row(0).queue.is_none());
}

#[test]
fn clone_of_a_recording_keeps_every_field() {
    let mut r = recording("a", 3);
    r.prompt = Some("x".to_string());
    r.uploaded_at = Some(4);
    let copy = r.clone();
    assert_eq!(copy.id, r.id);
    assert_eq!(copy.lang, r.lang);
    assert_eq!(copy.prompt, r.prompt);
    assert_eq!(copy.qc_metrics, r.qc_metrics);
    assert_eq!(copy.created_at, r.created_at);
    assert_eq!(copy.uploaded_at, r.uploaded_at);
    assert_eq!(copy.wav_path, r.wav_path);
    let entry = UploadQueueEntry { recording_id: "a".to_string(), attempts: 2, last_attempt: Some(1) };
    let copy = entry.clone();
    assert_eq!(copy.recording_id, "a");
    assert_eq!(copy.attempts, 2);
    assert_eq!(copy.last_attempt, Some(1));
}

#[test]
fn sweep_deletes_the_entries_of_delivered_recordings() {
    let mut ledger = Ledger::new();
    ledger.commit(recording("a", 1)).unwrap();
    ledger.commit(recording("b", 2)).unwrap();
    ledger.commit(recording("c", 3)).unwrap();
    ledger.record_failure("c", 2, 9).unwrap();
    assert_eq!(ledger.sweep(), 0);
    ledger.set_uploaded_at("a", 10).unwrap();
    ledger.set_uploaded_at("c", 11).unwrap();
    assert_eq!(queue_entries(&ledger, "a"), 1);
    assert_eq!(ledger.sweep(), 2);
    assert_eq!(queue_entries(&ledger, "a"), 0);
    assert_eq!(queue_entries(&ledger, "b"), 1);
    assert_eq!(queue_entries(&ledger, "c"), 0);
    assert_eq!(ledger.row(0).recording.uploaded_at, Some(10));
    assert_eq!(ledger.row(2).recording.uploaded_at, Some(11));
    assert_eq!(pending_ids(&ledger), vec!["b".to_string()]);
    assert_eq!(ledger.sweep(), 0);
    assert_eq!(ledger.commit(recording("d", 4)), Ok(()));
    assert_eq!(ledger.mark_uploaded("b", 12), Ok(()));
}
