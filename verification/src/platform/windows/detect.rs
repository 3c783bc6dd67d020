//! Title-driven meeting classification, confirmed against running processes.

use vstd::prelude::*;

use crate::models::MeetingPlatform;
use crate::platform::detect::{primary_process, spec_primary_process, Candidate};
use crate::text::{chars_of, contains, has_prefix, has_sub, starts_with, to_lowercase, unicode_lowercase};

verus! {

/// The process names as character sequences.
pub open spec fn proc_names(procs: Seq<String>) -> Seq<Seq<char>> {
    procs.map_values(|p: String| p@)
}

/// Some running process name contains `name`.
pub open spec fn procs_have(procs: Seq<Seq<char>>, name: Seq<char>) -> bool {
    exists|k: int| 0 <= k < procs.len() && has_sub(#[trigger] procs[k], name)
}

/// A web browser is running.
pub open spec fn browser_running(procs: Seq<Seq<char>>) -> bool {
    ||| procs_have(procs, "chrome"@)
    ||| procs_have(procs, "msedge"@)
    ||| procs_have(procs, "firefox"@)
    ||| procs_have(procs, "brave"@)
    ||| procs_have(procs, "opera"@)
    ||| procs_have(procs, "vivaldi"@)
}

/// A live Google Meet tab: a subject or code in the title (never the bare
/// "Google Meet" home/left-call screen).
pub open spec fn meet_title(t: Seq<char>) -> bool {
    has_sub(t, " - google meet"@) || has_prefix(t, "meet - "@) || has_sub(t, "meet.google"@)
}

/// A Zoom in-call window.
pub open spec fn zoom_title(t: Seq<char>) -> bool {
    has_sub(t, "zoom meeting"@) || has_sub(t, "zoom.us"@)
}

/// A Teams meeting or call window, excluding the "Calls |" history tab.
pub open spec fn teams_title(t: Seq<char>) -> bool {
    has_sub(t, "microsoft teams"@) && (has_sub(t, "meeting"@) || (has_sub(t, "call"@)
        && !has_sub(t, "calls |"@)))
}

/// The platform a lower-cased window title belongs to, given the lower-cased
/// running process names; rules are tried in this order.
pub open spec fn spec_classify(t: Seq<char>, procs: Seq<Seq<char>>) -> Option<MeetingPlatform> {
    if browser_running(procs) && meet_title(t) {
        Some(MeetingPlatform::GoogleMeet)
    } else if zoom_title(t) && procs_have(procs, "zoom"@) {
        Some(MeetingPlatform::Zoom)
    } else if teams_title(t) && (procs_have(procs, "teams"@) || procs_have(procs, "ms-teams"@)) {
        Some(MeetingPlatform::Teams)
    } else if has_sub(t, "huddle"@) && procs_have(procs, "slack"@) {
        Some(MeetingPlatform::Slack)
    } else if procs_have(procs, "discord"@) && has_sub(t, "discord"@) && has_sub(t, " - "@) {
        Some(MeetingPlatform::Discord)
    } else if has_sub(t, "webex"@) && has_sub(t, "meeting"@) {
        Some(MeetingPlatform::Webex)
    } else {
        None
    }
}

/// Whether some process name contains `name`.
fn has_process(ps: &Vec<Vec<char>>, name: &str, Ghost(names): Ghost<Seq<Seq<char>>>) -> (b: bool)
    requires
        ps@.len() == names.len(),
        forall|j: int| 0 <= j < names.len() ==> (#[trigger] ps@[j])@ == names[j],
    ensures
        b == procs_have(names, name@),
{
    let needle = chars_of(name);
    for k in 0..ps.len()
        invariant
            ps@.len() == names.len(),
            forall|j: int| 0 <= j < names.len() ==> (#[trigger] ps@[j])@ == names[j],
            needle@ == name@,
            forall|j: int| 0 <= j < k ==> !has_sub(#[trigger] names[j], name@),
    {
        if contains(&ps[k], &needle) {
            assert(has_sub(names[k as int], name@));
            return true;
        }
    }
    false
}

/// Whether `name` occurs in the title.
fn title_has(t: &Vec<char>, name: &str) -> (b: bool)
    ensures
        b == has_sub(t@, name@),
{
    let n = chars_of(name);
    contains(t, &n)
}

/// Classify a lower-cased window title against the lower-cased running process
/// names, or `None` when it is not an in-progress meeting.
pub fn classify(title: &str, procs: &[String]) -> (r: Option<MeetingPlatform>)
    ensures
        r == spec_classify(title@, proc_names(procs@)),
{
    let t = chars_of(title);
    let mut ps: Vec<Vec<char>> = Vec::new();
    for k in 0..procs.len()
        invariant
            ps@.len() == k,
            forall|j: int| 0 <= j < k ==> (#[trigger] ps@[j])@ == procs@[j]@,
    {
        ps.push(chars_of(procs[k].as_str()));
    }
    let ghost names = proc_names(procs@);
    let browser = has_process(&ps, "chrome", Ghost(names)) || has_process(&ps, "msedge", Ghost(names))
        || has_process(&ps, "firefox", Ghost(names)) || has_process(&ps, "brave", Ghost(names))
        || has_process(&ps, "opera", Ghost(names)) || has_process(&ps, "vivaldi", Ghost(names));
    if browser && (title_has(&t, " - google meet") || starts_with(&t, &chars_of("meet - "))
        || title_has(&t, "meet.google")) {
        return Some(MeetingPlatform::GoogleMeet);
    }
    if (title_has(&t, "zoom meeting") || title_has(&t, "zoom.us")) && has_process(&ps, "zoom", Ghost(names)) {
        return Some(MeetingPlatform::Zoom);
    }
    if title_has(&t, "microsoft teams") && (title_has(&t, "meeting") || (title_has(&t, "call")
        && !title_has(&t, "calls |"))) && (has_process(&ps, "teams", Ghost(names)) || has_process(&ps, "ms-teams", Ghost(names))) {
        return Some(MeetingPlatform::Teams);
    }
    if title_has(&t, "huddle") && has_process(&ps, "slack", Ghost(names)) {
        return Some(MeetingPlatform::Slack);
    }
    if has_process(&ps, "discord", Ghost(names)) && (title_has(&t, "discord") && title_has(&t, " - ")) {
        return Some(MeetingPlatform::Discord);
    }
    if title_has(&t, "webex") && title_has(&t, "meeting") {
        return Some(MeetingPlatform::Webex);
    }
    None
}


/// A browser tab on a Google Meet call (" - google meet" or "meet.google" in
/// the lower-cased title, or a title starting "meet - ") with a browser
/// process (chrome, msedge, firefox, brave, opera or vivaldi) running is a
/// Google Meet meeting.
pub proof fn law_classify_google_meet(t: Seq<char>, procs: Seq<Seq<char>>, k: int)
    requires
        has_sub(t, " - google meet"@) || has_prefix(t, "meet - "@) || has_sub(t, "meet.google"@),
        0 <= k < procs.len(),
        has_sub(procs[k], "chrome"@) || has_sub(procs[k], "msedge"@) || has_sub(procs[k], "firefox"@)
            || has_sub(procs[k], "brave"@) || has_sub(procs[k], "opera"@) || has_sub(procs[k], "vivaldi"@),
    ensures
        spec_classify(t, procs) == Some(MeetingPlatform::GoogleMeet),
{
    assert(browser_running(procs));
}

/// Zoom's in-call window ("zoom meeting" or "zoom.us" in the lower-cased
/// title) with a Zoom process running is a Zoom meeting, when the title is no
/// Google Meet tab.
pub proof fn law_classify_zoom(t: Seq<char>, procs: Seq<Seq<char>>, k: int)
    requires
        has_sub(t, "zoom meeting"@) || has_sub(t, "zoom.us"@),
        0 <= k < procs.len(),
        has_sub(procs[k], "zoom"@),
        !has_sub(t, " - google meet"@) && !has_prefix(t, "meet - "@) && !has_sub(t, "meet.google"@),
    ensures
        spec_classify(t, procs) == Some(MeetingPlatform::Zoom),
{
    assert(procs_have(procs, "zoom"@));
}

/// A Microsoft Teams meeting or call window (not the "Calls |" history tab)
/// with a Teams process running is a Teams meeting, when the title is no
/// Google Meet tab and no Zoom window.
pub proof fn law_classify_teams(t: Seq<char>, procs: Seq<Seq<char>>, k: int)
    requires
        has_sub(t, "microsoft teams"@),
        has_sub(t, "meeting"@) || (has_sub(t, "call"@) && !has_sub(t, "calls |"@)),
        0 <= k < procs.len(),
        has_sub(procs[k], "teams"@),
        !has_sub(t, " - google meet"@) && !has_prefix(t, "meet - "@) && !has_sub(t, "meet.google"@),
        !has_sub(t, "zoom meeting"@) && !has_sub(t, "zoom.us"@),
    ensures
        spec_classify(t, procs) == Some(MeetingPlatform::Teams),
{
    assert(procs_have(procs, "teams"@));
}

/// A Slack huddle window with Slack running is a Slack meeting, when the
/// title is no Google Meet, Zoom or Teams window.
pub proof fn law_classify_slack(t: Seq<char>, procs: Seq<Seq<char>>, k: int)
    requires
        has_sub(t, "huddle"@),
        0 <= k < procs.len(),
        has_sub(procs[k], "slack"@),
        !has_sub(t, " - google meet"@) && !has_prefix(t, "meet - "@) && !has_sub(t, "meet.google"@),
        !has_sub(t, "zoom meeting"@) && !has_sub(t, "zoom.us"@),
        !has_sub(t, "microsoft teams"@),
    ensures
        spec_classify(t, procs) == Some(MeetingPlatform::Slack),
{
    assert(procs_have(procs, "slack"@));
}

/// A Discord window titled "... - ..." with Discord running is a Discord
/// call, when the title is no Google Meet, Zoom, Teams or huddle window.
pub proof fn law_classify_discord(t: Seq<char>, procs: Seq<Seq<char>>, k: int)
    requires
        has_sub(t, "discord"@) && has_sub(t, " - "@),
        0 <= k < procs.len(),
        has_sub(procs[k], "discord"@),
        !has_sub(t, " - google meet"@) && !has_prefix(t, "meet - "@) && !has_sub(t, "meet.google"@),
        !has_sub(t, "zoom meeting"@) && !has_sub(t, "zoom.us"@),
        !has_sub(t, "microsoft teams"@),
        !has_sub(t, "huddle"@),
    ensures
        spec_classify(t, procs) == Some(MeetingPlatform::Discord),
{
    assert(procs_have(procs, "discord"@));
}

/// A Webex meeting window is a Webex meeting whatever runs, when the title is
/// no Google Meet, Zoom, Teams, huddle or Discord window.
pub proof fn law_classify_webex(t: Seq<char>, procs: Seq<Seq<char>>)
    requires
        has_sub(t, "webex"@) && has_sub(t, "meeting"@),
        !has_sub(t, " - google meet"@) && !has_prefix(t, "meet - "@) && !has_sub(t, "meet.google"@),
        !has_sub(t, "zoom meeting"@) && !has_sub(t, "zoom.us"@),
        !has_sub(t, "microsoft teams"@),
        !has_sub(t, "huddle"@),
        !has_sub(t, "discord"@),
    ensures
        spec_classify(t, procs) == Some(MeetingPlatform::Webex),
{
}

/// Every classification rests on its title words and, except Webex, on the
/// platform's process; a title with none of the platforms' words is no
/// meeting.
pub proof fn law_classify_evidence(t: Seq<char>, procs: Seq<Seq<char>>)
    ensures
        spec_classify(t, procs) == Some(MeetingPlatform::GoogleMeet) ==> {
            &&& has_sub(t, " - google meet"@) || has_prefix(t, "meet - "@) || has_sub(t, "meet.google"@)
            &&& exists|k: int| 0 <= k < procs.len() && (has_sub(#[trigger] procs[k], "chrome"@)
                || has_sub(procs[k], "msedge"@) || has_sub(procs[k], "firefox"@) || has_sub(procs[k], "brave"@)
                || has_sub(procs[k], "opera"@) || has_sub(procs[k], "vivaldi"@))
        },
        spec_classify(t, procs) == Some(MeetingPlatform::Zoom) ==> {
            &&& has_sub(t, "zoom meeting"@) || has_sub(t, "zoom.us"@)
            &&& exists|k: int| 0 <= k < procs.len() && has_sub(#[trigger] procs[k], "zoom"@)
        },
        spec_classify(t, procs) == Some(MeetingPlatform::Teams) ==> {
            &&& has_sub(t, "microsoft teams"@)
            &&& has_sub(t, "meeting"@) || (has_sub(t, "call"@) && !has_sub(t, "calls |"@))
            &&& exists|k: int| 0 <= k < procs.len() && (has_sub(#[trigger] procs[k], "teams"@)
                || has_sub(procs[k], "ms-teams"@))
        },
        spec_classify(t, procs) == Some(MeetingPlatform::Slack) ==> {
            &&& has_sub(t, "huddle"@)
            &&& exists|k: int| 0 <= k < procs.len() && has_sub(#[trigger] procs[k], "slack"@)
        },
        spec_classify(t, procs) == Some(MeetingPlatform::Discord) ==> {
            &&& has_sub(t, "discord"@) && has_sub(t, " - "@)
            &&& exists|k: int| 0 <= k < procs.len() && has_sub(#[trigger] procs[k], "discord"@)
        },
        spec_classify(t, procs) == Some(MeetingPlatform::Webex) ==> has_sub(t, "webex"@) && has_sub(t, "meeting"@),
        spec_classify(t, procs) != Some(MeetingPlatform::Unknown),
        !has_sub(t, " - google meet"@) && !has_prefix(t, "meet - "@) && !has_sub(t, "meet.google"@)
            && !has_sub(t, "zoom meeting"@) && !has_sub(t, "zoom.us"@) && !has_sub(t, "microsoft teams"@)
            && !has_sub(t, "huddle"@) && !has_sub(t, "discord"@) && !has_sub(t, "webex"@)
            ==> spec_classify(t, procs) is None,
{
}

/// The candidates found in a list of window titles: scanning the titles in
/// order, the first title that classifies as a platform yields that platform's
/// candidate (platform, title as given); later titles of the same platform are
/// ignored.
pub open spec fn spec_scan(titles: Seq<Seq<char>>, procs: Seq<Seq<char>>) -> Seq<(MeetingPlatform, Seq<char>)>
    decreases titles.len(),
{
    if titles.len() == 0 {
        Seq::empty()
    } else {
        let prev = spec_scan(titles.drop_last(), procs);
        let t = titles.last();
        match spec_classify(unicode_lowercase(t), procs) {
            Some(p) => if exists|i: int| 0 <= i < prev.len() && (#[trigger] prev[i]).0 == p {
                prev
            } else {
                prev.push((p, t))
            },
            None => prev,
        }
    }
}

/// The titles as character sequences.
pub open spec fn title_texts(titles: Seq<String>) -> Seq<Seq<char>> {
    titles.map_values(|t: String| t@)
}

/// `cands` are exactly the scan result `found`, each with its platform's
/// representative process name.
pub open spec fn candidates_match(cands: Seq<Candidate>, found: Seq<(MeetingPlatform, Seq<char>)>) -> bool {
    &&& cands.len() == found.len()
    &&& forall|i: int| 0 <= i < cands.len() ==> {
        &&& (#[trigger] cands[i]).platform == found[i].0
        &&& cands[i].title@ == found[i].1
        &&& cands[i].process_name@ == spec_primary_process(found[i].0)
    }
}

/// Classify every visible window title (as given) against the running process
/// names (lower-cased); at most one candidate per platform.
pub fn scan(titles: &[String], procs: &[String]) -> (r: Vec<Candidate>)
    ensures
        candidates_match(r@, spec_scan(title_texts(titles@), proc_names(procs@))),
        forall|i: int, j: int| 0 <= i < j < r@.len() ==> r@[i].platform != r@[j].platform,
{
    let ghost tt = title_texts(titles@);
    let ghost pn = proc_names(procs@);
    let mut found: Vec<Candidate> = Vec::new();
    for k in 0..titles.len()
        invariant
            tt == title_texts(titles@),
            pn == proc_names(procs@),
            candidates_match(found@, spec_scan(tt.subrange(0, k as int), pn)),
            forall|i: int, j: int| 0 <= i < j < found@.len() ==> found@[i].platform != found@[j].platform,
    {
        proof {
            assert(tt.subrange(0, k + 1).drop_last() =~= tt.subrange(0, k as int));
            assert(tt.subrange(0, k + 1).last() == titles@[k as int]@);
        }
        let lower = to_lowercase(titles[k].as_str());
        match classify(lower.as_str(), procs) {
            Some(p) => {
                let mut seen = false;
                let mut i: usize = 0;
                while i < found.len()
                    invariant
                        i <= found@.len(),
                        seen == exists|j: int| 0 <= j < i && (#[trigger] found@[j]).platform == p,
                    decreases found@.len() - i,
                {
                    if found[i].platform == p {
                        seen = true;
                    }
                    i += 1;
                }
                let ghost prev = spec_scan(tt.subrange(0, k as int), pn);
                proof {
                    if seen {
                        let j = choose|j: int| 0 <= j < found@.len() && (#[trigger] found@[j]).platform == p;
                        assert(prev[j].0 == p);
                    } else {
                        assert forall|j: int| 0 <= j < prev.len() implies (#[trigger] prev[j]).0 != p by {
                            assert(found@[j].platform == prev[j].0);
                        }
                    }
                }
                if !seen {
                    found.push(Candidate {
                        platform: p,
                        title: titles[k].clone(),
                        process_name: String::from_str(primary_process(p)),
                    });
                }
            },
            None => {},
        }
    }
    proof {
        assert(tt.subrange(0, titles@.len() as int) =~= tt);
    }
    found
}

} // verus!
