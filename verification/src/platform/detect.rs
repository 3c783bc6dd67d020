//! Platform-independent detection facade.

use vstd::prelude::*;

use crate::models::MeetingPlatform;
use crate::platform::windows::detect::{proc_names, spec_scan, title_texts, candidates_match};

verus! {

/// A meeting-like window/process found by a scan.
#[derive(Clone, Debug)]
pub struct Candidate {
    pub platform: MeetingPlatform,
    pub title: String,
    pub process_name: String,
}

/// Representative process name of a platform.
pub open spec fn spec_primary_process(p: MeetingPlatform) -> Seq<char> {
    match p {
        MeetingPlatform::GoogleMeet => "chrome.exe"@,
        MeetingPlatform::Zoom => "Zoom.exe"@,
        MeetingPlatform::Teams => "ms-teams.exe"@,
        MeetingPlatform::Discord => "Discord.exe"@,
        MeetingPlatform::Slack => "slack.exe"@,
        MeetingPlatform::Webex => "CiscoCollabHost.exe"@,
        MeetingPlatform::Unknown => "unknown"@,
    }
}

/// Representative process/display name for a platform (used when a title-only
/// signal is matched).
pub fn primary_process(platform: MeetingPlatform) -> (r: &'static str)
    ensures
        r@ == spec_primary_process(platform),
{
    match platform {
        MeetingPlatform::GoogleMeet => "chrome.exe",
        MeetingPlatform::Zoom => "Zoom.exe",
        MeetingPlatform::Teams => "ms-teams.exe",
        MeetingPlatform::Discord => "Discord.exe",
        MeetingPlatform::Slack => "slack.exe",
        MeetingPlatform::Webex => "CiscoCollabHost.exe",
        MeetingPlatform::Unknown => "unknown",
    }
}

/// Scan the visible window titles and running process names for in-progress
/// meetings: at most one candidate per platform.
pub fn scan(titles: &[String], procs: &[String]) -> (r: Vec<Candidate>)
    ensures
        candidates_match(r@, spec_scan(title_texts(titles@), proc_names(procs@))),
        forall|i: int, j: int| 0 <= i < j < r@.len() ==> r@[i].platform != r@[j].platform,
{
    crate::platform::windows::detect::scan(titles, procs)
}

/// The platforms that currently have an active meeting: the platforms of the
/// scan's candidates, each once.
pub fn active_platforms(titles: &[String], procs: &[String]) -> (r: Vec<MeetingPlatform>)
    ensures
        ({
            let found = spec_scan(title_texts(titles@), proc_names(procs@));
            &&& r@.len() == found.len()
            &&& forall|i: int| 0 <= i < r@.len() ==> r@[i] == found[i].0
        }),
        forall|i: int, j: int| 0 <= i < j < r@.len() ==> r@[i] != r@[j],
{
    let cands = scan(titles, procs);
    let mut out: Vec<MeetingPlatform> = Vec::new();
    for i in 0..cands.len()
        invariant
            out@.len() == i,
            forall|j: int| 0 <= j < i ==> out@[j] == cands@[j].platform,
    {
        out.push(cands[i].platform);
    }
    out
}

} // verus!
