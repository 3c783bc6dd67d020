use meetapp::models::MeetingPlatform;
use meetapp::platform::detect::{active_platforms, primary_process};
use meetapp::platform::windows::detect::{classify, scan};

fn procs(names: &[&str]) -> Vec<String> {
    names.iter().map(|s| s.to_string()).collect()
}

fn titles(names: &[&str]) -> Vec<String> {
    names.iter().map(|s| s.to_string()).collect()
}

#[test]
fn detects_teams_meeting_window() {
    let title = "meeting compact view - jitesh tripathi - microsoft teams";
    assert_eq!(classify(title, &procs(&["ms-teams.exe"])), Some(MeetingPlatform::Teams));
}

#[test]
fn ignores_idle_teams_window() {
    assert_eq!(classify("chat | microsoft teams", &procs(&["ms-teams.exe"])), None);
}

#[test]
fn detects_google_meet_tab() {
    assert_eq!(
        classify("project sync - google meet", &procs(&["chrome.exe"])),
        Some(MeetingPlatform::GoogleMeet)
    );
}

#[test]
fn detects_google_meet_code_tab() {
    assert_eq!(
        classify("meet - abc-defg-hij - google chrome", &procs(&["chrome.exe"])),
        Some(MeetingPlatform::GoogleMeet)
    );
}

#[test]
fn ignores_google_meet_home_screen() {
    assert_eq!(classify("google meet - google chrome", &procs(&["chrome.exe"])), None);
}

#[test]
fn ignores_teams_calls_tab() {
    assert_eq!(classify("calls | microsoft teams", &procs(&["ms-teams.exe"])), None);
}

#[test]
fn detects_google_meet_with_browser_window_suffix() {
    assert_eq!(
        classify("project sync - google meet - google chrome", &procs(&["chrome.exe"])),
        Some(MeetingPlatform::GoogleMeet)
    );
}

#[test]
fn ignores_zoom_home_window() {
    assert_eq!(classify("zoom workplace", &procs(&["zoom.exe"])), None);
}

#[test]
fn no_match_without_meeting_process() {
    assert_eq!(classify("microsoft teams meeting notes.docx", &procs(&["winword.exe"])), None);
}

#[test]
fn scan_reports_each_platform_once() {
    let t = titles(&[
        "Project Sync - Google Meet",
        "Weekly - Google Meet - Google Chrome",
        "Meeting compact view - Microsoft Teams",
        "Inbox - Outlook",
    ]);
    let found = scan(&t, &procs(&["chrome.exe", "ms-teams.exe"]));
    assert_eq!(found.len(), 2);
    assert_eq!(found[0].platform, MeetingPlatform::GoogleMeet);
    assert_eq!(found[0].title, "Project Sync - Google Meet");
    assert_eq!(found[1].platform, MeetingPlatform::Teams);
}

#[test]
fn scan_without_processes_finds_nothing() {
    let t = titles(&["Project Sync - Google Meet"]);
    assert!(scan(&t, &procs(&[])).is_empty());
}

#[test]
fn active_platforms_lists_detected_platforms() {
    let t = titles(&["Project Sync - Google Meet"]);
    assert_eq!(active_platforms(&t, &procs(&["chrome.exe"])), vec![MeetingPlatform::GoogleMeet]);
}

#[test]
fn primary_process_names() {
    assert_eq!(primary_process(MeetingPlatform::Teams), "ms-teams.exe");
    assert_eq!(primary_process(MeetingPlatform::Zoom), "Zoom.exe");
}
