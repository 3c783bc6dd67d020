use meetapp::engine::detection::{key, GraceCounter, DetectedSet, END_GRACE_TICKS, capture_mode_for, detection_enabled};
use meetapp::engine::library::{derive_id, derive_title, is_wav_name, join_path, select_orphans, settle_loaded_status, sidecar_path, wav_duration_sec, import_orphan};
use meetapp::engine::recorder::{begin_status, end_status, set_mode_status, finalize_plan, finish_meeting, recording_stem, slugify, start_flags, start_message, state_after_stop, talk_times, tick_timing, voice_talk_times, mute_watch_message};
use meetapp::audio::SpeakerSegment;
use meetapp::platform::detect::Candidate;
use meetapp::models::{CaptureMode, DetectedMeeting, Meeting, MeetingPlatform, MeetingStatus, RecorderState, RecorderStatus, TimelineKind, TranscriptSegment};
use meetapp::error::AppError;

fn seg(speaker: &str, start: u64, end: u64) -> TranscriptSegment {
    TranscriptSegment {
        id: "seg_x".to_string(),
        speaker: speaker.to_string(),
        text: "hello".to_string(),
        start_ms: start,
        end_ms: end,
        confidence_bits: None,
    }
}

#[test]
fn imports_orphan_wav_with_a_sidecar() {
    // The naming rules the library applies to "team-standup-mtg_orphan1.wav".
    assert!(is_wav_name("team-standup-mtg_orphan1.wav"));
    assert_eq!(derive_id("team-standup-mtg_orphan1"), "mtg_orphan1");
    assert_eq!(derive_title("team-standup-mtg_orphan1"), "team standup");
    let m = import_orphan("team-standup-mtg_orphan1", "/rec/team-standup-mtg_orphan1.wav", 1_000, 1);
    assert_eq!(m.id, "mtg_orphan1");
    assert_eq!(m.title, "team standup");
    assert_eq!(m.duration_sec, 1);
    assert_eq!(m.audio_path.as_deref(), Some("/rec/team-standup-mtg_orphan1.wav"));
}

#[test]
fn derived_names_of_foreign_files() {
    assert_eq!(derive_id("my talk (1)"), "imported_my_talk__1_");
    assert_eq!(derive_title("--__--"), "Recording");
    assert_eq!(derive_title("chat-mtg_dup"), "chat");
    assert!(is_wav_name("A.WAV"));
    assert!(!is_wav_name(".wav"));
    assert!(!is_wav_name("notes.txt"));
}

#[test]
fn rescan_does_not_duplicate_imported_recordings() {
    let referenced = vec!["chat-mtg_dup.wav".to_string()];
    let names = vec!["chat-mtg_dup.wav".to_string(), "new.wav".to_string(), "new.wav".to_string()];
    assert_eq!(select_orphans(&referenced, &names), vec![1]);
}

#[test]
fn does_not_persist_meeting_without_media() {
    let m = Meeting::new_live("Demo".to_string(), MeetingPlatform::Unknown, CaptureMode::Record);
    assert!(!meetapp::engine::library::has_media(&m));
    let mut with_audio = m.clone();
    with_audio.audio_path = Some("/rec/demo.wav".to_string());
    assert!(meetapp::engine::library::has_media(&with_audio));
}

#[test]
fn transient_status_becomes_ready_on_load() {
    assert_eq!(settle_loaded_status(MeetingStatus::Live), MeetingStatus::Ready);
    assert_eq!(settle_loaded_status(MeetingStatus::Processing), MeetingStatus::Ready);
    assert_eq!(settle_loaded_status(MeetingStatus::Failed), MeetingStatus::Failed);
}

#[test]
fn library_paths() {
    assert_eq!(join_path("/rec", "a.wav"), "/rec/a.wav");
    assert_eq!(join_path("/rec", "/abs/a.wav"), "/abs/a.wav");
    assert_eq!(sidecar_path("/rec", "mtg_1"), "/rec/metadata/mtg_1.json");
    assert_eq!(wav_duration_sec(96_000, 2, 48_000), 1);
    assert_eq!(wav_duration_sec(96_000, 0, 48_000), 2);
    assert_eq!(wav_duration_sec(96_000, 1, 0), 0);
}

#[test]
fn slugs_and_stems() {
    assert_eq!(slugify("Q3 Product Roadmap Sync!"), "q3-product-roadmap-sync");
    assert_eq!(slugify("***"), "recording");
    assert_eq!(recording_stem("standup", "mtg_1"), "standup-mtg_1");
}

#[test]
fn talk_time_per_speaker() {
    let segs = vec![seg("A", 0, 1_000), seg("B", 1_000, 1_500), seg("A", 2_000, 2_600), seg("B", 10, 5)];
    let (per, total) = talk_times(&segs);
    assert_eq!(per, vec![("A".to_string(), 1_600), ("B".to_string(), 500)]);
    assert_eq!(total, 2_100);
    assert_eq!(per.iter().map(|(_, ms)| ms).sum::<u64>(), total);
}

#[test]
fn same_title_different_meetings_never_share_a_file() {
    let slug = slugify("Live recording");
    let a = meetapp::audio::wav_path("/rec", &recording_stem(&slug, "mtg_a"));
    let b = meetapp::audio::wav_path("/rec", &recording_stem(&slug, "mtg_b"));
    assert_eq!(a, "/rec/live-recording-mtg_a.wav");
    assert_ne!(a, b);
}

#[test]
fn voice_roster_you_then_remote() {
    let segs = vec![
        SpeakerSegment { speaker: "Remote", start_ms: 0, end_ms: 400 },
        SpeakerSegment { speaker: "You", start_ms: 500, end_ms: 600 },
    ];
    let (per, total) = voice_talk_times(&segs);
    assert_eq!(per, vec![("You", 100), ("Remote", 400)]);
    assert_eq!(total, 500);
    assert_eq!(per.iter().map(|(_, ms)| ms).sum::<u64>(), total);
}

#[test]
fn stopping_a_capture() {
    assert_eq!(state_after_stop(CaptureMode::Off), RecorderState::Idle);
    assert_eq!(state_after_stop(CaptureMode::Record), RecorderState::Armed);
    let mut m = Meeting::new_live("Sync".to_string(), MeetingPlatform::Teams, CaptureMode::Record);
    m.duration_sec = 90;
    let mode = finish_meeting(&mut m, 5_000, Some("/rec/a.wav".to_string()), None, "t_end".to_string());
    assert_eq!(mode, CaptureMode::Record);
    assert_eq!(m.status, MeetingStatus::Processing);
    assert_eq!(m.timeline.len(), 2);
    assert_eq!(m.timeline[1].label, "Recording ended");
    assert_eq!(m.timeline[1].at_ms, 90_000);
    assert_eq!(m.timeline[1].kind, TimelineKind::Leave);
    assert_eq!(m.ended_at_ms, Some(5_000));
}

#[test]
fn post_processing_plan() {
    let p = finalize_plan(CaptureMode::Record, true, false, false, true);
    assert!(p.suppress_noise && p.trim_silence && p.normalize && !p.mux_video && !p.transcribe);
    let p = finalize_plan(CaptureMode::RecordVideo, true, true, false, false);
    assert!(!p.suppress_noise && !p.trim_silence && p.normalize && p.mux_video);
    let p = finalize_plan(CaptureMode::Transcribe, true, false, false, false);
    assert!(p.transcribe && !p.normalize);
}

#[test]
fn start_messages_and_flags() {
    assert!(start_message(false, false).is_none());
    assert!(start_message(true, true).unwrap().starts_with("Couldn't open any audio input"));
    assert!(start_message(false, true).unwrap().starts_with("Recording the microphone in exclusive mode"));
    let base = Some("base".to_string());
    assert_eq!(mute_watch_message(false, &base), base);
    assert!(mute_watch_message(true, &base).unwrap().starts_with("Your speakers are muted"));
    assert_eq!(start_flags(CaptureMode::RecordVideo, true, true, true), (true, true, false));
    assert_eq!(start_flags(CaptureMode::Transcribe, true, true, false), (false, false, true));
    assert_eq!(start_flags(CaptureMode::Off, true, true, false), (false, false, false));
    assert_eq!(tick_timing(9), (2, false));
    assert_eq!(tick_timing(8), (2, true));
}

#[test]
fn auto_stop_after_grace() {
    let key_zoom = key(MeetingPlatform::Zoom);
    let mut g = GraceCounter::new();
    let active = vec![key_zoom.clone()];
    assert!(!g.observe(Some(&key_zoom), &active));
    let none: Vec<String> = Vec::new();
    for _ in 0..END_GRACE_TICKS - 1 {
        assert!(!g.observe(Some(&key_zoom), &none));
    }
    assert!(g.observe(Some(&key_zoom), &none));
    // a manual recording is never auto-stopped
    assert!(!g.observe(None, &none));
}

#[test]
fn presence_resets_grace() {
    let k = key(MeetingPlatform::Teams);
    let mut g = GraceCounter::new();
    let none: Vec<String> = Vec::new();
    assert!(!g.observe(Some(&k), &none));
    assert!(!g.observe(Some(&k), &none));
    assert!(!g.observe(Some(&k), &vec![k.clone()]));
    for _ in 0..END_GRACE_TICKS - 1 {
        assert!(!g.observe(Some(&k), &none));
    }
    assert!(g.observe(Some(&k), &none));
}

#[test]
fn detected_set_bookkeeping() {
    let mut set = DetectedSet::new();
    let d = |id: &str| DetectedMeeting {
        id: id.to_string(),
        platform: MeetingPlatform::GoogleMeet,
        title: "t".to_string(),
        process_name: "chrome.exe".to_string(),
        detected_at_ms: 0,
        capturing: false,
    };
    assert!(set.insert(d("a")));
    assert!(!set.insert(d("a")));
    assert!(set.insert(d("b")));
    set.set_capturing(&"b".to_string());
    assert!(set.get(&"b".to_string()).unwrap().capturing);
    let gone = set.retain_current(&["b".to_string()]);
    assert_eq!(gone, vec!["a".to_string()]);
    assert_eq!(set.len(), 1);
    assert_eq!(set.clear(), vec!["b".to_string()]);
    assert!(set.is_empty());
}

#[test]
fn scan_results_become_detections_once() {
    let cand = |p: MeetingPlatform, t: &str| Candidate { platform: p, title: t.to_string(), process_name: "x.exe".to_string() };
    let mut set = DetectedSet::new();
    let fresh = set.register_scan(&[cand(MeetingPlatform::Zoom, "Zoom Meeting")], 5);
    assert_eq!(fresh.len(), 1);
    assert_eq!(fresh[0].id, "det_Zoom");
    assert_eq!(fresh[0].detected_at_ms, 5);
    assert!(!fresh[0].capturing);
    let fresh = set.register_scan(
        &[cand(MeetingPlatform::Zoom, "Zoom Meeting"), cand(MeetingPlatform::Teams, "a"), cand(MeetingPlatform::Teams, "b")],
        9,
    );
    assert_eq!(fresh.len(), 1);
    assert_eq!(fresh[0].id, "det_Teams");
    assert_eq!(fresh[0].title, "a");
    assert_eq!(set.len(), 2);
}

#[test]
fn detection_switches() {
    assert!(detection_enabled(CaptureMode::Off, true));
    assert!(!detection_enabled(CaptureMode::Off, false));
    assert!(detection_enabled(CaptureMode::Record, false));
    assert_eq!(capture_mode_for(CaptureMode::Off), CaptureMode::Record);
}

#[test]
fn recorder_status_lifecycle() {
    let mut st = RecorderStatus::default();
    assert_eq!(st.state, RecorderState::Idle);
    set_mode_status(&mut st, CaptureMode::Record);
    assert_eq!(st.state, RecorderState::Armed);
    assert!(matches!(end_status(&mut st, false), Err(AppError::NotRecording)));
    assert_eq!(st.state, RecorderState::Armed);
    begin_status(&mut st, false, CaptureMode::Record, "mtg_1".to_string(), true, false).unwrap();
    assert_eq!(st.state, RecorderState::Recording);
    assert_eq!(st.active_meeting_id.as_deref(), Some("mtg_1"));
    assert!(st.message.as_deref().unwrap().starts_with("Couldn't open any audio input"));
    assert!(matches!(
        begin_status(&mut st, true, CaptureMode::Record, "mtg_2".to_string(), false, false),
        Err(AppError::AlreadyRecording)
    ));
    assert_eq!(st.active_meeting_id.as_deref(), Some("mtg_1"));
    st.elapsed_sec = 42;
    set_mode_status(&mut st, CaptureMode::Off);
    assert_eq!(st.state, RecorderState::Recording);
    end_status(&mut st, true).unwrap();
    assert_eq!(st.state, RecorderState::Idle);
    assert!(st.active_meeting_id.is_none() && st.message.is_none());
    assert_eq!(st.elapsed_sec, 0);
}
