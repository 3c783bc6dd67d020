use meetapp::audio::deepfilter::{check_output_format, enhancement_allowed, keep_requested, pick_output, toggle_enabled, Enhanced};
use meetapp::audio::pipeline::SegmentTracker;
use meetapp::audio::{trim_window, wav_path};
use meetapp::error::AppError;

#[test]
fn segment_tracker_opens_and_closes() {
    let mut t = SegmentTracker::new("You");
    let mut segs = Vec::new();
    t.update(true, 100, &mut segs);
    t.update(true, 200, &mut segs);
    t.update(false, 300, &mut segs);
    assert_eq!(segs.len(), 1);
    assert_eq!(segs[0].speaker, "You");
    assert_eq!((segs[0].start_ms, segs[0].end_ms), (100, 300));
}

#[test]
fn segment_tracker_close_never_ends_before_start() {
    let mut t = SegmentTracker::new("Remote");
    let mut segs = Vec::new();
    t.update(true, 500, &mut segs);
    t.close(400, &mut segs);
    assert_eq!(segs.len(), 1);
    assert_eq!((segs[0].start_ms, segs[0].end_ms), (500, 500));
    t.close(900, &mut segs);
    assert_eq!(segs.len(), 1);
}

#[test]
fn silence_without_open_segment_writes_nothing() {
    let mut t = SegmentTracker::new("You");
    let mut segs = Vec::new();
    t.update(false, 100, &mut segs);
    assert!(segs.is_empty());
}

#[test]
fn disabled_build_is_always_noop() {
    for toggle in [None, Some("1"), Some("on"), Some("whatever.wav")] {
        assert!(!enhancement_allowed(false, toggle));
    }
    assert!(enhancement_allowed(true, None));
    assert!(!enhancement_allowed(true, Some("off")));
}

#[test]
fn env_toggle_parsing() {
    for (v, want) in [
        ("0", false),
        ("false", false),
        ("OFF", false),
        ("no", false),
        ("1", true),
        ("true", true),
        ("on", true),
    ] {
        assert_eq!(toggle_enabled(Some(v)), want, "MEETAPP_DEEPFILTER={v}");
    }
    assert!(toggle_enabled(None), "unset ⇒ allowed (compile feature already opted in)");
}

#[test]
fn toggle_trims_and_treats_blank_as_off() {
    assert!(!toggle_enabled(Some("  Off \n")));
    assert!(!toggle_enabled(Some("   ")));
    assert!(toggle_enabled(Some("yes please")));
}

#[test]
fn keep_switch_is_exact() {
    assert!(keep_requested(Some("1")));
    assert!(keep_requested(Some("yes")));
    assert!(!keep_requested(Some("YES")));
    assert!(!keep_requested(Some(" on")));
    assert!(!keep_requested(None));
}

#[test]
fn picks_first_non_empty_wav() {
    let names = vec!["log.txt".to_string(), "a_DeepFilterNet3.WAV".to_string(), "b.wav".to_string()];
    assert_eq!(pick_output(&names, &[10, 0, 5]), Some(2));
    assert_eq!(pick_output(&names, &[10, 7, 5]), Some(1));
    assert_eq!(pick_output(&names, &[10, 0, 0]), None);
}

#[test]
fn output_format_checks() {
    assert!(check_output_format(48_000, 2, 48_000, 2, 100).is_ok());
    match check_output_format(48_000, 2, 48_000, 2, 0) {
        Err(AppError::Audio(m)) => assert_eq!(m, "output WAV has no samples"),
        other => panic!("unexpected {other:?}"),
    }
    match check_output_format(48_000, 2, 44_100, 1, 10) {
        Err(AppError::Audio(m)) => {
            assert_eq!(m, "output format 44100Hz/1ch does not match input 48000Hz/2ch")
        }
        other => panic!("unexpected {other:?}"),
    }
}

#[test]
fn enhanced_reports_its_file() {
    let e = Enhanced::new("/tmp/x/out.wav".to_string(), "/tmp/x".to_string(), true);
    assert_eq!(e.path(), "/tmp/x/out.wav");
    assert_eq!(e.dir(), "/tmp/x");
    assert!(e.keep());
}

#[test]
fn wav_path_joins_slug() {
    assert_eq!(wav_path("/rec", "standup-mtg_1"), "/rec/standup-mtg_1.wav");
    assert_eq!(wav_path("/rec/", "x"), "/rec/x.wav");
}

#[test]
fn trims_leading_and_trailing_silence() {
    // 1 s silence | 1 s tone | 1 s silence at 48 kHz; a 200 ms pad is 9600 frames.
    let (start, end) = trim_window(48_000, 95_999, 48_000, 144_000).unwrap();
    assert_eq!((start, end), (38_400, 105_599));
    let after = end - start + 1;
    assert!(after < 144_000);
    assert!((60_000..=68_000).contains(&after), "≈ tone + 2×0.2s pad, got {after}");
}

#[test]
fn noop_when_no_dead_air() {
    assert_eq!(trim_window(0, 47_999, 48_000, 48_000), None);
    // content close to both edges: the pads reach the ends, nothing is cut
    assert_eq!(trim_window(1_000, 143_000, 48_000, 144_000), None);
}

#[test]
fn trim_window_clips_to_the_file() {
    assert_eq!(trim_window(5_000, 68_000, 48_000, 144_000), Some((0, 77_600)));
    assert_eq!(trim_window(60_000, 140_000, 48_000, 144_000), Some((50_400, 143_999)));
}
