use cowcow::capture::{has_voice_activity, CaptureError, CaptureSession, CaptureState};
use cowcow::quality::{AudioProcessor, QcMetrics};

const QUIET: QcMetrics = QcMetrics { snr_db: 0, clipping_pct: 0, vad_ratio: 0 };

fn voiced_chunk() -> Vec<i16> {
    vec![2000i16; 1600]
}

fn silent_chunk() -> Vec<i16> {
    vec![0i16; 1600]
}

#[test]
fn voice_is_vad_above_one_percent_or_rms_above_floor() {
    let silent = silent_chunk();
    assert!(!has_voice_activity(&QUIET, &silent));
    let at_threshold = QcMetrics { vad_ratio: 1_000, ..QUIET };
    assert!(!has_voice_activity(&at_threshold, &silent));
    let above_threshold = QcMetrics { vad_ratio: 1_001, ..QUIET };
    assert!(has_voice_activity(&above_threshold, &silent));
    assert!(has_voice_activity(&QUIET, &voiced_chunk()));
    assert!(has_voice_activity(&QUIET, &[164i16; 10]));
    assert!(!has_voice_activity(&QUIET, &[163i16; 10]));
}

#[test]
fn session_needs_a_positive_rate() {
    match CaptureSession::new(0, None) {
        Err(e) => assert_eq!(e, CaptureError::ZeroSampleRate),
        Ok(_) => panic!("a session at 0 Hz"),
    }
    let session = CaptureSession::new(16000, Some(3)).unwrap();
    assert_eq!(session.state(), CaptureState::Capturing);
    assert!(session.is_capturing());
    assert_eq!(session.total_samples_processed(), 0);
    assert_eq!(session.silence_start_samples(), None);
    assert_eq!(session.chunk_count(), 0);
}

#[test]
fn two_seconds_of_voice_then_five_of_silence_stop_by_silence() {
    let mut session = CaptureSession::new(16000, None).unwrap();
    for _ in 0..20 {
        assert_eq!(session.record_chunk(&voiced_chunk(), QUIET), CaptureState::Capturing);
    }
    assert_eq!(session.total_samples_processed(), 32_000);
    assert_eq!(session.silence_start_samples(), None);
    for _ in 0..49 {
        assert_eq!(session.record_chunk(&silent_chunk(), QUIET), CaptureState::Capturing);
        assert_eq!(session.silence_start_samples(), Some(32_000));
    }
    assert_eq!(session.record_chunk(&silent_chunk(), QUIET), CaptureState::StoppedBySilence);
    assert_eq!(session.state(), CaptureState::StoppedBySilence);
    assert_eq!(session.total_samples_processed(), 7 * 16_000);
    assert_eq!(session.chunk_count(), 70);
}

#[test]
fn silence_stop_is_within_one_chunk_of_the_timeout() {
    let mut session = CaptureSession::new(8000, None).unwrap();
    session.record_chunk(&vec![3000i16; 700], QUIET);
    let mut state = CaptureState::Capturing;
    let mut chunks = 0;
    while state == CaptureState::Capturing {
        state = session.record_chunk(&vec![0i16; 700], QUIET);
        chunks += 1;
    }
    assert_eq!(state, CaptureState::StoppedBySilence);
    assert_eq!(chunks, 58);
    let silent = session.total_samples_processed() - 700;
    assert!(silent >= 40_000 && silent < 40_000 + 700);
}

#[test]
fn voice_clears_the_silence_marker() {
    let mut session = CaptureSession::new(16000, None).unwrap();
    session.record_chunk(&silent_chunk(), QUIET);
    assert_eq!(session.silence_start_samples(), Some(0));
    session.record_chunk(&silent_chunk(), QUIET);
    assert_eq!(session.silence_start_samples(), Some(0));
    session.record_chunk(&voiced_chunk(), QUIET);
    assert_eq!(session.silence_start_samples(), None);
    session.record_chunk(&silent_chunk(), QUIET);
    assert_eq!(session.silence_start_samples(), Some(4_800));
}

#[test]
fn three_seconds_of_voice_stop_by_duration() {
    let mut session = CaptureSession::new(16000, Some(3)).unwrap();
    for _ in 0..29 {
        assert_eq!(session.on_timeout(), CaptureState::Capturing);
        assert_eq!(session.record_chunk(&voiced_chunk(), QUIET), CaptureState::Capturing);
        assert_eq!(session.on_timeout(), CaptureState::Capturing);
        assert_eq!(session.on_timeout(), CaptureState::Capturing);
    }
    assert_eq!(session.total_samples_processed(), 46_400);
    assert_eq!(session.record_chunk(&voiced_chunk(), QUIET), CaptureState::StoppedByDuration);
    assert_eq!(session.total_samples_processed(), 48_000);
    assert_eq!(session.on_timeout(), CaptureState::StoppedByDuration);
}

#[test]
fn timeouts_alone_never_stop_a_session() {
    let session = CaptureSession::new(16000, Some(0)).unwrap();
    for _ in 0..1000 {
        assert_eq!(session.on_timeout(), CaptureState::Capturing);
    }
    assert_eq!(session.total_samples_processed(), 0);
}

#[test]
fn silence_is_looked_at_before_duration() {
    let mut session = CaptureSession::new(1000, Some(5)).unwrap();
    assert_eq!(session.record_chunk(&vec![0i16; 5000], QUIET), CaptureState::StoppedBySilence);
    let mut session = CaptureSession::new(1000, Some(5)).unwrap();
    assert_eq!(
        session.record_chunk(&vec![5000i16; 5000], QUIET),
        CaptureState::StoppedByDuration
    );
}

#[test]
fn zero_duration_stops_with_the_first_chunk() {
    let mut session = CaptureSession::new(16000, Some(0)).unwrap();
    assert_eq!(session.record_chunk(&voiced_chunk(), QUIET), CaptureState::StoppedByDuration);
}

#[test]
fn closed_channel_stops_a_capturing_session() {
    let mut session = CaptureSession::new(16000, None).unwrap();
    session.record_chunk(&voiced_chunk(), QUIET);
    assert_eq!(session.on_channel_closed(), CaptureState::StoppedByChannelClose);
    assert_eq!(session.state(), CaptureState::StoppedByChannelClose);
    assert!(!session.is_capturing());
}

#[test]
fn stopped_session_takes_nothing_more() {
    let mut session = CaptureSession::new(16000, Some(0)).unwrap();
    session.record_chunk(&voiced_chunk(), QUIET);
    assert_eq!(session.record_chunk(&voiced_chunk(), QUIET), CaptureState::StoppedByDuration);
    assert_eq!(session.on_channel_closed(), CaptureState::StoppedByDuration);
    assert_eq!(session.total_samples_processed(), 1600);
    assert_eq!(session.chunk_count(), 1);
}

#[test]
fn session_metrics_need_a_stopped_session_with_chunks() {
    let mut session = CaptureSession::new(16000, None).unwrap();
    assert_eq!(session.session_metrics(), Err(CaptureError::StillCapturing));
    session.on_channel_closed();
    assert_eq!(session.session_metrics(), Err(CaptureError::NoChunks));

    let mut session = CaptureSession::new(16000, None).unwrap();
    session.record_chunk(
        &voiced_chunk(),
        QcMetrics { snr_db: 30_000, clipping_pct: 2_000, vad_ratio: 90_000 },
    );
    session.record_chunk(
        &voiced_chunk(),
        QcMetrics { snr_db: 10_000, clipping_pct: 0, vad_ratio: 70_000 },
    );
    assert_eq!(session.session_metrics(), Err(CaptureError::StillCapturing));
    session.on_channel_closed();
    assert_eq!(
        session.session_metrics(),
        Ok(QcMetrics { snr_db: 20_000, clipping_pct: 1_000, vad_ratio: 80_000 })
    );
}

#[test]
fn finalize_hands_over_the_averaged_recording() {
    let mut session = CaptureSession::new(16000, None).unwrap();
    let metrics = QcMetrics { snr_db: 25_000, clipping_pct: 500, vad_ratio: 95_000 };
    session.record_chunk(&voiced_chunk(), metrics);
    match session.finalize(
        "a".to_string(),
        "sw".to_string(),
        None,
        "a.wav".to_string(),
        7,
    ) {
        Err(e) => assert_eq!(e, CaptureError::StillCapturing),
        Ok(_) => panic!("a recording of a running session"),
    }
    session.on_channel_closed();
    let recording = session
        .finalize("a".to_string(), "sw".to_string(), Some("habari".to_string()), "a.wav".to_string(), 7)
        .unwrap();
    assert_eq!(recording.id, "a");
    assert_eq!(recording.lang, "sw");
    assert_eq!(recording.prompt, Some("habari".to_string()));
    assert_eq!(recording.qc_metrics, metrics);
    assert_eq!(recording.created_at, 7);
    assert_eq!(recording.uploaded_at, None);
    assert_eq!(recording.wav_path, "a.wav");
}

#[test]
fn finalize_of_a_session_without_chunks_fails() {
    let mut session = CaptureSession::new(16000, None).unwrap();
    session.on_channel_closed();
    match session.finalize("a".to_string(), "sw".to_string(), None, "a.wav".to_string(), 7) {
        Err(e) => assert_eq!(e, CaptureError::NoChunks),
        Ok(_) => panic!("a recording without chunks"),
    }
}

#[test]
fn on_chunk_computes_the_metrics_and_records_them() {
    let mut processor = AudioProcessor::new(16000, 1).unwrap();
    let mut session = CaptureSession::new(16000, Some(1)).unwrap();
    assert_eq!(session.on_chunk(&mut processor, &[], 0), CaptureState::Capturing);
    assert_eq!(session.chunk_count(), 0);
    let mut chunk = vec![1000i16; 15_999];
    chunk.push(32767);
    assert_eq!(
        session.on_chunk(&mut processor, &chunk, -30_315),
        CaptureState::StoppedByDuration
    );
    assert_eq!(session.chunk_count(), 1);
    assert_eq!(session.total_samples_processed(), 16_000);
    session.on_channel_closed();
    let metrics = session.session_metrics().unwrap();
    assert_eq!(metrics.clipping_pct, 6);
    assert_eq!(metrics.snr_db, -30_315 + 60_000);
}

#[test]
fn on_chunk_with_silence_runs_into_the_silence_stop() {
    let mut processor = AudioProcessor::new(8000, 1).unwrap();
    let mut session = CaptureSession::new(8000, None).unwrap();
    let chunk = vec![0i16; 8000];
    for _ in 0..4 {
        assert_eq!(session.on_chunk(&mut processor, &chunk, i32::MIN), CaptureState::Capturing);
    }
    assert_eq!(
        session.on_chunk(&mut processor, &chunk, i32::MIN),
        CaptureState::StoppedBySilence
    );
    assert_eq!(session.silence_start_samples(), Some(0));
}
