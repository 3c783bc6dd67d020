use meetapp::error::AppError;
use meetapp::models::{CaptureMode, MeetingPlatform, RecorderState, Settings, SettingsPatch, ThemePreference};
use meetapp::platform::windows::audio_repair::{build_repair_script, health_from_probe, pcm_format, unsupported_health};
use meetapp::recorder::Source;
use meetapp::tray::{menu_action, state_after_mode, tooltip_for, MenuAction};

fn empty_patch() -> SettingsPatch {
    SettingsPatch {
        default_mode: None,
        auto_record_detected: None,
        capture_system_audio: None,
        cancel_my_noise: None,
        cancel_others_noise: None,
        launch_on_startup: None,
        start_minimized: None,
        save_directory: None,
        theme: None,
        assemblyai_api_key: None,
        groq_api_key: None,
        groq_model: None,
    }
}

#[test]
fn default_settings() {
    let s = Settings::with_default_dir("C:\\Users\\me\\MeetApp\\recordings", Some(" aai "), None, Some("   "));
    assert_eq!(s.default_mode, CaptureMode::Off);
    assert!(s.auto_record_detected && s.capture_system_audio);
    assert!(!s.cancel_my_noise && !s.cancel_others_noise);
    assert_eq!(s.save_directory, "C:/Users/me/MeetApp/recordings");
    assert_eq!(s.theme, ThemePreference::Light);
    assert_eq!(s.assemblyai_api_key, "aai");
    assert_eq!(s.groq_api_key, "");
    assert_eq!(s.groq_model, "llama-3.3-70b-versatile");
}

#[test]
fn patches_change_only_what_they_name() {
    let mut s = Settings::with_default_dir("/rec", None, None, None);
    let mut p = empty_patch();
    p.cancel_my_noise = Some(true);
    p.groq_model = Some("mixtral".to_string());
    s.apply(p);
    assert!(s.cancel_my_noise);
    assert_eq!(s.groq_model, "mixtral");
    assert_eq!(s.save_directory, "/rec");
    assert_eq!(s.default_mode, CaptureMode::Off);
    let before = s.clone();
    s.apply(empty_patch());
    assert_eq!(s.groq_model, before.groq_model);
    assert_eq!(s.cancel_my_noise, before.cancel_my_noise);
    let mut p = empty_patch();
    p.theme = Some(ThemePreference::Dark);
    s.apply(p);
    let mut p = empty_patch();
    p.theme = Some(ThemePreference::Dark);
    s.apply(p);
    assert_eq!(s.theme, ThemePreference::Dark);
}

#[test]
fn tray_behaviour() {
    assert_eq!(tooltip_for(RecorderState::Recording), "MeetApp — recording");
    assert_eq!(tooltip_for(RecorderState::Idle), "MeetApp — idle");
    assert_eq!(menu_action("mode_recordVideo"), MenuAction::SetMode(CaptureMode::RecordVideo));
    assert_eq!(menu_action("quit"), MenuAction::Quit);
    assert_eq!(menu_action("bogus"), MenuAction::Nothing);
    assert_eq!(state_after_mode(CaptureMode::Off, RecorderState::Recording), RecorderState::Recording);
    assert_eq!(state_after_mode(CaptureMode::Off, RecorderState::Armed), RecorderState::Idle);
    assert_eq!(state_after_mode(CaptureMode::Record, RecorderState::Idle), RecorderState::Armed);
    assert_eq!(state_after_mode(CaptureMode::Record, RecorderState::Detecting), RecorderState::Detecting);
}

#[test]
fn error_messages() {
    assert_eq!(AppError::MeetingNotFound("m1".to_string()).message(), "meeting not found: m1");
    assert_eq!(AppError::AlreadyRecording.message(), "a recording is already in progress");
    assert_eq!(AppError::NotRecording.message(), "no active recording to stop");
    assert_eq!(AppError::Audio("x".to_string()).message(), "audio device error: x");
    assert_eq!(AppError::Transcription("x".to_string()).message(), "transcription error: x");
    assert_eq!(AppError::Io("denied".to_string()).message(), "io error: denied");
    assert_eq!(AppError::Other("plain".to_string()).message(), "plain");
}

#[test]
fn platform_labels_and_modes() {
    assert_eq!(MeetingPlatform::Slack.label(), "Slack Huddle");
    assert_eq!(MeetingPlatform::Unknown.label(), "Recording");
    assert!(CaptureMode::RecordVideo.saves_audio() && CaptureMode::RecordVideo.saves_video());
    assert!(!CaptureMode::Transcribe.saves_audio() && CaptureMode::Transcribe.transcribes());
    assert_ne!(Source::Microphone, Source::Speaker);
}

#[test]
fn audio_health_verdicts() {
    let ok = health_from_probe(true, Some(true), false);
    assert!(ok.supported && ok.shared_ok && !ok.needs_repair);
    let broken = health_from_probe(true, Some(false), true);
    assert!(!broken.shared_ok && broken.needs_repair && broken.exclusive_ok);
    assert!(broken.detail.starts_with("Windows shared-mode audio is impaired"));
    assert!(health_from_probe(true, None, false).shared_ok);
    let off = unsupported_health();
    assert!(!off.supported && !off.needs_repair);
}

#[test]
fn repair_script_lines() {
    let s = build_repair_script(Some("{0.0.1}.{ab'c}"), None);
    assert!(s.starts_with("$ErrorActionPreference = 'Continue'\n$disable = '{e0f158e1-cb04-4c4b-aefd-f2df462b0c1c},5'\n"));
    assert!(s.contains("MMDevices\\Audio\\Capture\\{0.0.1}.{ab''c}\\FxProperties'\n"));
    assert!(!s.contains("\\Render\\"));
    assert!(s.ends_with("Restart-Service -Name Audiosrv -Force -ErrorAction SilentlyContinue\n"));
}

#[test]
fn pcm_layout() {
    let f = pcm_format(48_000, 2, 16);
    assert_eq!(f.format_tag, 1);
    assert_eq!(f.block_align, 4);
    assert_eq!(f.avg_bytes_per_sec, 192_000);
    assert_eq!(f.extra_size, 0);
}
