use meetapp::commands::{available_audio, find_detection, meeting_for_audio, send_bot, stop_outcome, AUDIO_UNAVAILABLE};
use meetapp::engine::detection::{capture_mode_for, DetectedSet};
use meetapp::error::AppError;
use meetapp::models::{CaptureMode, DetectedMeeting, Meeting, MeetingPlatform, MeetingStatus};
use meetapp::seed::seed_meetings;
use meetapp::state::{parse_flag, MeetingFlag, MeetingStore};

const NOW: i64 = 1_700_000_000_000;

fn live(title: &str) -> Meeting {
    Meeting::new_live(title.to_string(), MeetingPlatform::Zoom, CaptureMode::Record)
}

#[test]
fn example_meetings_are_seeded() {
    let ms = seed_meetings(NOW);
    assert_eq!(ms.len(), 2);
    let roadmap = &ms[0];
    assert_eq!(roadmap.id, "mtg_roadmap");
    assert_eq!(roadmap.title, "Q3 Product Roadmap Sync");
    assert_eq!(roadmap.started_at_ms, NOW - 4 * 3_600_000);
    assert_eq!(roadmap.ended_at_ms, Some(NOW - 4 * 3_600_000 + 42 * 60_000));
    assert_eq!(roadmap.duration_sec, 42 * 60 + 18);
    assert_eq!(roadmap.participants.len(), 4);
    assert_eq!(roadmap.participants[0].talk_ratio_bits, Some(0.34f32.to_bits()));
    assert_eq!(roadmap.transcript.len(), 4);
    assert_eq!(roadmap.transcript[3].confidence_bits, Some(0.95f32.to_bits()));
    assert!(roadmap.transcript[0].id.starts_with("seg_"));
    let summary = roadmap.summary.as_ref().unwrap();
    assert_eq!(summary.model, "local · summarizer-v1");
    assert_eq!(summary.decisions, vec!["Ship offline mode in Q3".to_string(), "Defer localization to Q4".to_string()]);
    assert_eq!(roadmap.action_items[0].assignee.as_deref(), Some("Marcus Lee"));
    let clip = &ms[1];
    assert_eq!(clip.id, "mtg_clip");
    assert!(clip.is_locked);
    assert_eq!(clip.started_at_ms, NOW - 14 * 86_400_000);
    assert_eq!(clip.participants[0].talk_ratio_bits, Some(1.0f32.to_bits()));
    assert!(ms.iter().all(|m| !meetapp::engine::library::has_media(m)));
}

#[test]
fn newest_first_orders_by_start() {
    let mut store = MeetingStore::with_examples(NOW);
    let mut m = live("Later");
    m.started_at_ms = NOW;
    store.upsert(m);
    // entries are kept in insertion order: roadmap, clip, then the new one
    assert_eq!(store.newest_first(), vec![2, 0, 1]);
}

#[test]
fn read_after_write_gives_the_meeting() {
    let mut store = MeetingStore::new();
    let m = live("Standup");
    let id = m.id.clone();
    store.upsert(m);
    assert_eq!(store.len(), 1);
    assert_eq!(store.get(&id).unwrap().title, "Standup");
    let mut again = store.get(&id).unwrap().clone();
    again.title = "Renamed".to_string();
    store.upsert(again);
    assert_eq!(store.len(), 1);
    assert_eq!(store.get(&id).unwrap().title, "Renamed");
    assert!(store.remove(&id));
    assert!(store.get(&id).is_none());
    assert!(!store.remove(&id));
}

#[test]
fn toggling_twice_restores() {
    let mut store = MeetingStore::with_examples(NOW);
    assert!(store.get("mtg_roadmap").unwrap().is_starred);
    store.toggle_flag("mtg_roadmap", "starred").unwrap();
    assert!(!store.get("mtg_roadmap").unwrap().is_starred);
    store.toggle_flag("mtg_roadmap", "starred").unwrap();
    assert!(store.get("mtg_roadmap").unwrap().is_starred);
    store.toggle_flag("mtg_clip", "locked").unwrap();
    assert!(!store.get("mtg_clip").unwrap().is_locked);
}

#[test]
fn toggle_errors() {
    let mut store = MeetingStore::with_examples(NOW);
    match store.toggle_flag("nope", "locked") {
        Err(e) => assert_eq!(e.message(), "meeting not found: nope"),
        Ok(()) => panic!("expected an error"),
    }
    match store.toggle_flag("mtg_clip", "pinned") {
        Err(AppError::Other(m)) => assert_eq!(m, "unknown flag: pinned"),
        _ => panic!("expected an unknown-flag error"),
    }
    assert!(store.get("mtg_clip").unwrap().is_locked);
    assert!(matches!(parse_flag("bookmarked"), Some(MeetingFlag::Bookmarked)));
    assert!(parse_flag("Locked").is_none());
}

#[test]
fn rename_and_action_items() {
    let mut store = MeetingStore::with_examples(NOW);
    store.rename("mtg_clip", "Vendor follow-up".to_string()).unwrap();
    assert_eq!(store.get("mtg_clip").unwrap().title, "Vendor follow-up");
    assert!(matches!(store.rename("x", "y".to_string()), Err(AppError::MeetingNotFound(_))));
    let item = store.get("mtg_roadmap").unwrap().action_items[1].id.clone();
    store.set_action_item_done("mtg_roadmap", &item, true).unwrap();
    let m = store.get("mtg_roadmap").unwrap();
    assert!(m.action_items[1].done);
    assert!(!m.action_items[0].done);
    assert!(store.set_status("mtg_roadmap", MeetingStatus::Processing));
    assert_eq!(store.get("mtg_roadmap").unwrap().status, MeetingStatus::Processing);
    assert!(!store.set_status("missing", MeetingStatus::Failed));
}

#[test]
fn manual_capture_mode() {
    assert_eq!(capture_mode_for(CaptureMode::Off), CaptureMode::Record);
    assert_eq!(capture_mode_for(CaptureMode::Transcribe), CaptureMode::Transcribe);
    assert_eq!(capture_mode_for(CaptureMode::RecordVideo), CaptureMode::RecordVideo);
}

#[test]
fn detection_lookup() {
    let mut set = DetectedSet::new();
    set.insert(DetectedMeeting {
        id: "det_zoom".to_string(),
        platform: MeetingPlatform::Zoom,
        title: "Zoom Meeting".to_string(),
        process_name: "Zoom.exe".to_string(),
        detected_at_ms: NOW,
        capturing: false,
    });
    assert_eq!(find_detection(&set, &"det_zoom".to_string()).unwrap().title, "Zoom Meeting");
    match find_detection(&set, &"det_x".to_string()) {
        Err(AppError::Other(m)) => assert_eq!(m, "detection not found: det_x"),
        _ => panic!("expected not found"),
    }
}

#[test]
fn audio_gate() {
    let store = MeetingStore::with_examples(NOW);
    let m = meeting_for_audio(&store, "mtg_clip").unwrap();
    match available_audio(m, true) {
        Err(AppError::Other(t)) => assert_eq!(t, AUDIO_UNAVAILABLE),
        _ => panic!("no audio path recorded"),
    }
    let mut with_audio = m.clone();
    with_audio.audio_path = Some("/rec/clip.wav".to_string());
    assert_eq!(available_audio(&with_audio, true).unwrap(), "/rec/clip.wav");
    assert!(available_audio(&with_audio, false).is_err());
    assert!(matches!(meeting_for_audio(&store, "gone"), Err(AppError::MeetingNotFound(_))));
}

#[test]
fn stopping_without_recording_is_not_an_error() {
    assert!(matches!(stop_outcome(Err(AppError::NotRecording)), Ok(None)));
    assert!(matches!(stop_outcome(Err(AppError::AlreadyRecording)), Err(AppError::AlreadyRecording)));
    let m = live("x");
    assert!(matches!(stop_outcome(Ok(m)), Ok(Some(_))));
    assert!(send_bot(Some("https://meet.example/abc".to_string())).ok);
}
