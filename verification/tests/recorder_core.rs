use meetapp::audio::{suppression_step, SuppressionStep};
use meetapp::engine::detection::{key, GraceCounter, END_GRACE_TICKS};
use meetapp::engine::recorder::{
    apply_baseline, check_can_start, detection_step, record_elapsed, settle_after_processing, start_session,
    stop_session, RecorderCore,
};
use meetapp::engine::transcription::simulated_segments;
use meetapp::error::AppError;
use meetapp::models::{
    CaptureMode, DetectedMeeting, Meeting, MeetingPlatform, MeetingStatus, Participant, RecorderState, TimelineKind,
};
use meetapp::platform::detect::Candidate;
use meetapp::state::MeetingStore;

fn live(mode: CaptureMode) -> Meeting {
    Meeting::new_live("Weekly sync".to_string(), MeetingPlatform::Zoom, mode)
}

fn zoom_candidate() -> Candidate {
    Candidate { platform: MeetingPlatform::Zoom, title: "Zoom Meeting".to_string(), process_name: "Zoom.exe".to_string() }
}

#[test]
fn start_stores_a_live_meeting_and_records() {
    let mut core = RecorderCore::new(MeetingStore::new());
    assert!(check_can_start(&core).is_ok());
    let m = live(CaptureMode::Record);
    let id = m.id.clone();
    let started = start_session(&mut core, m, Some("/rec/a.wav".to_string()), None, true, false, None).unwrap();
    assert_eq!(started.id, id);
    assert_eq!(started.status, MeetingStatus::Live);
    assert!(started.has_audio && !started.has_video);
    assert_eq!(started.audio_path.as_deref(), Some("/rec/a.wav"));
    assert_eq!(core.store.len(), 1);
    assert_eq!(core.store.get(&id).unwrap().status, MeetingStatus::Live);
    assert_eq!(core.session.as_ref().unwrap().meeting_id, id);
    assert_eq!(core.status.state, RecorderState::Recording);
    assert_eq!(core.status.mode, CaptureMode::Record);
    assert_eq!(core.status.active_meeting_id.as_deref(), Some(id.as_str()));
    assert!(core.status.message.is_none());
}

#[test]
fn start_is_refused_while_recording_and_changes_nothing() {
    let mut core = RecorderCore::new(MeetingStore::new());
    let first = live(CaptureMode::Record);
    let first_id = first.id.clone();
    start_session(&mut core, first, None, None, true, false, None).unwrap();
    assert!(matches!(check_can_start(&core), Err(AppError::AlreadyRecording)));
    let second = live(CaptureMode::Transcribe);
    let second_id = second.id.clone();
    let r = start_session(&mut core, second, None, None, true, false, None);
    assert!(matches!(r, Err(AppError::AlreadyRecording)));
    assert_eq!(core.store.len(), 1);
    assert!(core.store.get(&second_id).is_none());
    assert_eq!(core.status.active_meeting_id.as_deref(), Some(first_id.as_str()));
    assert_eq!(core.status.mode, CaptureMode::Record);
    assert_eq!(core.session.as_ref().unwrap().meeting_id, first_id);
}

#[test]
fn start_without_audio_input_says_so() {
    let mut core = RecorderCore::new(MeetingStore::new());
    let started = start_session(&mut core, live(CaptureMode::Transcribe), None, None, false, false, None).unwrap();
    assert!(!started.has_audio);
    assert!(core.status.message.as_deref().unwrap().starts_with("Couldn't open any audio input"));
    let mut core = RecorderCore::new(MeetingStore::new());
    start_session(&mut core, live(CaptureMode::Record), None, None, true, true, None).unwrap();
    assert!(core.status.message.as_deref().unwrap().starts_with("Recording the microphone in exclusive mode"));
}

#[test]
fn start_marks_its_detection_capturing() {
    let mut core = RecorderCore::new(MeetingStore::new());
    core.detected.insert(DetectedMeeting {
        id: "det_Zoom".to_string(),
        platform: MeetingPlatform::Zoom,
        title: "Zoom Meeting".to_string(),
        process_name: "Zoom.exe".to_string(),
        detected_at_ms: 0,
        capturing: false,
    });
    start_session(&mut core, live(CaptureMode::Record), None, None, true, false, Some("det_Zoom".to_string())).unwrap();
    assert!(core.detected.get(&"det_Zoom".to_string()).unwrap().capturing);
    assert_eq!(core.session.as_ref().unwrap().from_detection.as_deref(), Some("det_Zoom"));
}

#[test]
fn stop_without_a_capture_is_not_recording() {
    let mut core = RecorderCore::new(MeetingStore::new());
    let r = stop_session(&mut core, 1_000, "t_end".to_string(), true, true);
    assert!(matches!(r, Err(AppError::NotRecording)));
    assert!(core.session.is_none());
    assert_eq!(core.status.state, RecorderState::Idle);
}

#[test]
fn stop_closes_the_meeting_and_returns_it_processing() {
    let mut core = RecorderCore::new(MeetingStore::new());
    let m = live(CaptureMode::Record);
    let id = m.id.clone();
    start_session(&mut core, m, Some("/rec/a.wav".to_string()), None, true, false, None).unwrap();
    record_elapsed(&mut core, 90);
    assert_eq!(core.status.elapsed_sec, 90);
    assert_eq!(core.store.get(&id).unwrap().duration_sec, 90);
    let (closed, plan) = stop_session(&mut core, 5_000, "t_end".to_string(), false, true).unwrap();
    assert_eq!(closed.id, id);
    assert_eq!(closed.status, MeetingStatus::Processing);
    assert_eq!(closed.ended_at_ms, Some(5_000));
    assert_eq!(closed.audio_path.as_deref(), Some("/rec/a.wav"));
    let end = closed.timeline.last().unwrap();
    assert_eq!(end.id, "t_end");
    assert_eq!(end.label, "Recording ended");
    assert_eq!(end.at_ms, 90_000);
    assert_eq!(end.kind, TimelineKind::Leave);
    assert_eq!(core.store.get(&id).unwrap().status, MeetingStatus::Processing);
    assert!(plan.suppress_noise && plan.trim_silence && plan.normalize && !plan.mux_video && !plan.transcribe);
    assert!(core.session.is_none());
    assert_eq!(core.status.state, RecorderState::Armed);
    assert!(core.status.active_meeting_id.is_none());
    assert_eq!(core.status.elapsed_sec, 0);
}

#[test]
fn stop_of_a_vanished_meeting_is_not_found() {
    let mut core = RecorderCore::new(MeetingStore::new());
    let m = live(CaptureMode::Record);
    let id = m.id.clone();
    start_session(&mut core, m, None, None, true, false, None).unwrap();
    core.store.remove(&id);
    match stop_session(&mut core, 5_000, "t_end".to_string(), false, false) {
        Err(AppError::MeetingNotFound(x)) => assert_eq!(x, id),
        _ => panic!("expected MeetingNotFound"),
    }
    assert!(core.session.is_none());
    assert_eq!(core.status.state, RecorderState::Recording);
}

#[test]
fn elapsed_time_without_a_capture_changes_nothing() {
    let mut core = RecorderCore::new(MeetingStore::new());
    record_elapsed(&mut core, 12);
    assert_eq!(core.status.elapsed_sec, 0);
}

#[test]
fn transcribe_mode_never_keeps_audio() {
    // No cloud key and no transcription: the built-in transcript.
    let mut core = RecorderCore::new(MeetingStore::new());
    let m = live(CaptureMode::Transcribe);
    let id = m.id.clone();
    start_session(&mut core, m, Some("/tmp/t.wav".to_string()), None, true, false, None).unwrap();
    stop_session(&mut core, 2_000, "t_end".to_string(), false, false).unwrap();
    let offline = simulated_segments();
    let n = offline.len();
    let you = vec![Participant { id: "p_1".to_string(), name: "Alex".to_string(), talk_ratio_bits: None }];
    let gone = settle_after_processing(&mut core, &id, CaptureMode::Transcribe, false, false, offline, you);
    assert_eq!(gone.as_deref(), Some("/tmp/t.wav"));
    let m = core.store.get(&id).unwrap();
    assert!(m.audio_path.is_none() && !m.has_audio);
    assert_eq!(m.status, MeetingStatus::Ready);
    assert_eq!(m.transcript.len(), n);
    assert_eq!(m.participants.len(), 1);
    assert_eq!(m.participants[0].name, "Alex");

    // A cloud key that failed: the audio still goes, the transcript stays.
    let mut core = RecorderCore::new(MeetingStore::new());
    let m = live(CaptureMode::Transcribe);
    let id = m.id.clone();
    start_session(&mut core, m, Some("/tmp/u.wav".to_string()), None, true, false, None).unwrap();
    stop_session(&mut core, 2_000, "t_end".to_string(), false, false).unwrap();
    let gone = settle_after_processing(&mut core, &id, CaptureMode::Transcribe, false, true, Vec::new(), Vec::new());
    assert_eq!(gone.as_deref(), Some("/tmp/u.wav"));
    let m = core.store.get(&id).unwrap();
    assert!(m.audio_path.is_none() && !m.has_audio);
    assert!(m.transcript.is_empty());
}

#[test]
fn other_modes_become_ready_after_processing() {
    let mut core = RecorderCore::new(MeetingStore::new());
    let m = live(CaptureMode::Record);
    let id = m.id.clone();
    start_session(&mut core, m, Some("/rec/a.wav".to_string()), None, true, false, None).unwrap();
    stop_session(&mut core, 2_000, "t_end".to_string(), false, false).unwrap();
    let gone = settle_after_processing(&mut core, &id, CaptureMode::Record, false, false, Vec::new(), Vec::new());
    assert!(gone.is_none());
    let m = core.store.get(&id).unwrap();
    assert_eq!(m.status, MeetingStatus::Ready);
    assert_eq!(m.audio_path.as_deref(), Some("/rec/a.wav"));
    // an unknown id changes nothing
    assert!(settle_after_processing(&mut core, "mtg_none", CaptureMode::Transcribe, false, false, Vec::new(), Vec::new()).is_none());
}

#[test]
fn detection_off_ends_every_detection() {
    let mut core = RecorderCore::new(MeetingStore::new());
    let mut grace = GraceCounter::new();
    let a = detection_step(&mut core, &mut grace, true, &[zoom_candidate()], &[], 7);
    assert_eq!(a.fresh.len(), 1);
    let a = detection_step(&mut core, &mut grace, false, &[zoom_candidate()], &[], 8);
    assert_eq!(a.ended, vec!["det_Zoom".to_string()]);
    assert!(a.fresh.is_empty() && !a.auto_start && !a.stop);
    assert!(core.detected.is_empty());
    assert_eq!(core.status.state, RecorderState::Idle);
}

#[test]
fn detection_poll_auto_records_and_auto_stops() {
    let mut core = RecorderCore::new(MeetingStore::new());
    let mut grace = GraceCounter::new();
    let a = detection_step(&mut core, &mut grace, true, &[zoom_candidate()], &[MeetingPlatform::Zoom], 7);
    assert_eq!(a.fresh.len(), 1);
    assert_eq!(a.fresh[0].id, "det_Zoom");
    assert_eq!(a.fresh[0].detected_at_ms, 7);
    assert!(a.auto_start && !a.stop);
    assert!(a.ended.is_empty());
    assert_eq!(core.status.state, RecorderState::Detecting);

    start_session(&mut core, live(CaptureMode::Record), None, None, true, false, Some(a.fresh[0].id.clone())).unwrap();
    // still in the call: seen again, nothing new, no stop
    let a = detection_step(&mut core, &mut grace, true, &[zoom_candidate()], &[MeetingPlatform::Zoom], 9);
    assert!(a.fresh.is_empty() && !a.auto_start && !a.stop);
    assert_eq!(core.status.state, RecorderState::Recording);

    // the window is gone: the detection ends, the capture stops after the grace period
    let a = detection_step(&mut core, &mut grace, true, &[], &[], 11);
    assert_eq!(a.ended, vec![key(MeetingPlatform::Zoom)]);
    assert!(!a.stop);
    for _ in 1..END_GRACE_TICKS - 1 {
        assert!(!detection_step(&mut core, &mut grace, true, &[], &[], 12).stop);
    }
    assert!(detection_step(&mut core, &mut grace, true, &[], &[], 13).stop);
    stop_session(&mut core, 14, "t_end".to_string(), false, false).unwrap();
    assert_eq!(core.status.state, RecorderState::Armed);
    apply_baseline(&mut core);
    assert_eq!(core.status.state, RecorderState::Armed);
}

#[test]
fn a_recording_started_by_hand_is_never_auto_stopped() {
    let mut core = RecorderCore::new(MeetingStore::new());
    let mut grace = GraceCounter::new();
    start_session(&mut core, live(CaptureMode::Record), None, None, true, false, None).unwrap();
    for _ in 0..END_GRACE_TICKS + 2 {
        let a = detection_step(&mut core, &mut grace, true, &[], &[], 1);
        assert!(!a.stop && !a.auto_start);
    }
}

#[test]
fn noise_suppression_runs_one_engine() {
    assert_eq!(suppression_step(false, false, None), SuppressionStep::Done);
    assert_eq!(suppression_step(true, false, None), SuppressionStep::TryDeepFilterNet);
    assert_eq!(suppression_step(false, true, Some(true)), SuppressionStep::Done);
    assert_eq!(suppression_step(true, true, Some(false)), SuppressionStep::RunRnnoise);
}

#[test]
fn a_duplicate_meeting_holds_the_same_values() {
    let mut m = live(CaptureMode::RecordVideo);
    m.tags.push("team".to_string());
    m.audio_path = Some("/rec/a.wav".to_string());
    let d = m.duplicate();
    assert_eq!(d.id, m.id);
    assert_eq!(d.title, m.title);
    assert_eq!(d.tags, m.tags);
    assert_eq!(d.participants.len(), 1);
    assert_eq!(d.participants[0].id, m.participants[0].id);
    assert_eq!(d.timeline[0].label, "Recording started");
    assert_eq!(d.audio_path, m.audio_path);
    assert_eq!(d.mode, CaptureMode::RecordVideo);
}

#[test]
fn off_mode_start_keeps_no_media() {
    let mut core = RecorderCore::new(MeetingStore::new());
    let started = start_session(
        &mut core,
        live(CaptureMode::Off),
        Some("/rec/a.wav".to_string()),
        Some("/rec/a.mp4".to_string()),
        true,
        false,
        None,
    )
    .unwrap();
    assert!(started.audio_path.is_none() && started.video_path.is_none());
    assert!(!started.has_audio && !started.has_video);
    let s = core.session.as_ref().unwrap();
    assert!(s.audio_path.is_none() && s.video_path.is_none());
    assert!(core.store.get(&started.id).unwrap().audio_path.is_none());
}

#[test]
fn transcribe_start_keeps_its_temporary_audio_only_when_input_opened() {
    let mut core = RecorderCore::new(MeetingStore::new());
    let started =
        start_session(&mut core, live(CaptureMode::Transcribe), Some("/tmp/t.wav".to_string()), None, true, false, None)
            .unwrap();
    assert_eq!(started.audio_path.as_deref(), Some("/tmp/t.wav"));
    assert!(!started.has_audio);
    let mut core = RecorderCore::new(MeetingStore::new());
    let started =
        start_session(&mut core, live(CaptureMode::Record), Some("/rec/b.wav".to_string()), None, false, false, None)
            .unwrap();
    assert!(started.audio_path.is_none() && !started.has_audio);
}
