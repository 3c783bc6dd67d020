use meetapp::dotenv::{env_updates, parse_dotenv, parse_line, unquote};
use meetapp::engine::ai::{HeuristicSummarizer, Summarizer};
use meetapp::engine::cloud::{
    apply_summary, apply_transcription, clean_strings, fallback_segment, groq_action_item, groq_reply, http_error, resolve_key,
    segments_from_utterances, summarization_precheck, transcription_request, Utterance,
};
use meetapp::engine::transcription::{simulated_segments, SimulatedTranscriber};
use meetapp::error::AppError;
use meetapp::ids::prefixed_id;
use meetapp::models::{CaptureMode, Meeting, MeetingPlatform, MeetingStatus, TranscriptSegment};
use meetapp::text::decimal_string;

fn pairs(v: &[(&str, &str)]) -> Vec<(String, String)> {
    v.iter().map(|(k, x)| (k.to_string(), x.to_string())).collect()
}

#[test]
fn parses_lines_comments_and_quotes() {
    let content = "# a comment\n\
                   DOTENV_T_PLAIN=hello\n\
                   export DOTENV_T_EXPORT=world\n\
                   DOTENV_T_DQUOTE=\"quoted value\"\n\
                   DOTENV_T_SQUOTE='single'\n\
                   \n\
                   DOTENV_T_EMPTY=\n";
    let entries = parse_dotenv(content);
    assert_eq!(
        entries,
        pairs(&[
            ("DOTENV_T_PLAIN", "hello"),
            ("DOTENV_T_EXPORT", "world"),
            ("DOTENV_T_DQUOTE", "quoted value"),
            ("DOTENV_T_SQUOTE", "single"),
            ("DOTENV_T_EMPTY", ""),
        ])
    );
}

#[test]
fn real_environment_wins() {
    let entries = parse_dotenv("DOTENV_T_PREC=from_file\n");
    // the key is already set in the real environment
    assert!(env_updates(&entries, &[true]).is_empty());
    assert_eq!(env_updates(&entries, &[false]), pairs(&[("DOTENV_T_PREC", "from_file")]));
}

#[test]
fn first_entry_of_a_key_wins() {
    let entries = parse_dotenv("A=1\nB=2\nA=3\r\n");
    assert_eq!(entries, pairs(&[("A", "1"), ("B", "2"), ("A", "3")]));
    assert_eq!(env_updates(&entries, &[false, false, false]), pairs(&[("A", "1"), ("B", "2")]));
}

#[test]
fn dotenv_line_forms() {
    assert_eq!(parse_line("  KEY = 'v' "), Some(("KEY".to_string(), "v".to_string())));
    assert_eq!(parse_line("=oops"), None);
    assert_eq!(parse_line("no equals"), None);
    assert_eq!(parse_line("# KEY=v"), None);
    assert_eq!(parse_line("URL=a=b"), Some(("URL".to_string(), "a=b".to_string())));
    assert_eq!(unquote("\"x'"), "\"x'");
    assert_eq!(unquote("''"), "");
}

#[test]
fn decimal_notation() {
    assert_eq!(decimal_string(0), "0");
    assert_eq!(decimal_string(48_000), "48000");
    assert_eq!(decimal_string(u64::MAX), u64::MAX.to_string());
}

#[test]
fn http_errors_quote_the_body() {
    match http_error(401, "unauthorized") {
        AppError::Transcription(t) => assert_eq!(t, "HTTP 401: unauthorized"),
        other => panic!("unexpected {other:?}"),
    }
    let long = "x".repeat(500);
    match http_error(500, &long) {
        AppError::Transcription(t) => assert_eq!(t, format!("HTTP 500: {}", "x".repeat(400))),
        other => panic!("unexpected {other:?}"),
    }
}

#[test]
fn key_resolution() {
    assert_eq!(resolve_key("  sk-1 ", Some("env")), Some("sk-1".to_string()));
    assert_eq!(resolve_key("   ", Some(" env ")), Some("env".to_string()));
    assert_eq!(resolve_key("", Some("  ")), None);
    assert_eq!(resolve_key("", None), None);
}

#[test]
fn transcription_needs_audio_and_key() {
    let mut m = Meeting::new_live("x".to_string(), MeetingPlatform::Zoom, CaptureMode::Record);
    match transcription_request(&m, Some("k".to_string())) {
        Err(AppError::Other(t)) => assert_eq!(t, "This meeting has no saved audio to transcribe."),
        _ => panic!(),
    }
    m.audio_path = Some("/rec/x.wav".to_string());
    match transcription_request(&m, None) {
        Err(AppError::Other(t)) => assert_eq!(t, "Add your AssemblyAI API key in Settings to transcribe."),
        _ => panic!(),
    }
    assert_eq!(
        transcription_request(&m, Some("k".to_string())).unwrap(),
        ("/rec/x.wav".to_string(), "k".to_string())
    );
    match summarization_precheck(&m) {
        Err(AppError::Other(t)) => assert_eq!(t, "Transcribe the meeting first, then summarize."),
        _ => panic!(),
    }
}

#[test]
fn utterances_become_segments() {
    let us = vec![
        Utterance { text: Some("  hi there ".to_string()), speaker: Some("B".to_string()), start_ms: Some(100), end_ms: Some(900), confidence_bits: None },
        Utterance { text: Some("   ".to_string()), speaker: None, start_ms: None, end_ms: None, confidence_bits: None },
        Utterance { text: Some("ok".to_string()), speaker: None, start_ms: Some(1000), end_ms: None, confidence_bits: Some(7) },
    ];
    let segs = segments_from_utterances(&us);
    assert_eq!(segs.len(), 2);
    assert_eq!(segs[0].speaker, "Speaker B");
    assert_eq!(segs[0].text, "hi there");
    assert_eq!((segs[0].start_ms, segs[0].end_ms), (100, 900));
    assert_eq!(segs[1].speaker, "Speaker A");
    assert_eq!((segs[1].start_ms, segs[1].end_ms), (1000, 1000));
    assert_eq!(segs[1].confidence_bits, Some(7));
    assert!(segs[0].id.starts_with("seg_") && segs[0].id.len() == 36);
}

#[test]
fn flat_text_fallback() {
    let s = fallback_segment(Some(" all of it "), Some(12), None).unwrap();
    assert_eq!(s.speaker, "Speaker");
    assert_eq!(s.text, "all of it");
    assert_eq!((s.start_ms, s.end_ms), (0, 12_000));
    assert!(fallback_segment(Some("  "), Some(12), None).is_none());
    assert!(fallback_segment(None, None, None).is_none());
}

#[test]
fn applying_results() {
    let mut m = Meeting::new_live("x".to_string(), MeetingPlatform::Zoom, CaptureMode::Transcribe);
    m.audio_path = Some("/rec/x.wav".to_string());
    let segs = simulated_segments();
    let gone = apply_transcription(&mut m, segs, Vec::new(), true);
    assert_eq!(gone.as_deref(), Some("/rec/x.wav"));
    assert!(m.audio_path.is_none() && !m.has_audio);
    assert_eq!(m.status, MeetingStatus::Ready);
    assert_eq!(m.transcript.len(), 8);
    assert_eq!(m.participants.len(), 1);
    let h = HeuristicSummarizer;
    let summary = h.summarize(&m);
    let items = h.action_items(&m);
    apply_summary(&mut m, summary, items);
    assert!(m.summary.is_some());
}

#[test]
fn groq_items_and_lists() {
    let a = groq_action_item(Some(" Ship it "), Some("null")).unwrap();
    assert_eq!(a.text, "Ship it");
    assert_eq!(a.assignee, None);
    assert!(a.id.starts_with("a_"));
    let b = groq_action_item(Some("Triage"), Some(" Dana ")).unwrap();
    assert_eq!(b.assignee.as_deref(), Some("Dana"));
    assert!(groq_action_item(Some("  "), None).is_none());
    let v = clean_strings(&[Some(" a ".to_string()), None, Some("".to_string()), Some("b".to_string())]);
    assert_eq!(v, vec!["a".to_string(), "b".to_string()]);
}

fn line(speaker: &str, text: &str) -> TranscriptSegment {
    TranscriptSegment { id: "seg_1".to_string(), speaker: speaker.to_string(), text: text.to_string(), start_ms: 0, end_ms: 1, confidence_bits: None }
}

#[test]
fn heuristic_summary() {
    let mut m = Meeting::new_live("Release PLANNING".to_string(), MeetingPlatform::Zoom, CaptureMode::Record);
    m.transcript = vec![
        line("A", "We agreed to ship Friday."),
        line("B", "I'll write the notes."),
        line("A", "Budget is fine."),
        line("C", "Let's decide later..."),
        line("B", "We will follow up with legal."),
    ];
    let h = HeuristicSummarizer;
    let s = h.summarize(&m);
    assert_eq!(s.tldr, "Discussion covering release planning. We agreed to ship Friday. I'll write the notes.");
    assert_eq!(s.key_points, vec!["We agreed to ship Friday", "I'll write the notes", "Budget is fine", "Let's decide later"]);
    assert_eq!(s.decisions, vec!["We agreed to ship Friday", "Let's decide later"]);
    assert_eq!(s.model, "local · summarizer-v1");
    let items = h.action_items(&m);
    assert_eq!(items.len(), 2);
    assert_eq!(items[0].text, "I'll write the notes.");
    assert_eq!(items[0].assignee.as_deref(), Some("B"));
    assert_eq!(items[1].text, "We will follow up with legal.");
    let empty = Meeting::new_live("x".to_string(), MeetingPlatform::Zoom, CaptureMode::Record);
    assert_eq!(h.summarize(&empty).tldr, "No speech was captured for this session.");
}

#[test]
fn simulated_transcript_cycles() {
    let mut t = SimulatedTranscriber::new();
    assert_eq!(t.model_name(), "local · simulated");
    let first = t.next(1_000);
    assert_eq!(first.speaker, "You");
    assert_eq!((first.start_ms, first.end_ms), (1_000, 4_000));
    for _ in 0..7 {
        t.next(0);
    }
    assert_eq!(t.next(0).text, first.text);
    t.reset();
    assert_eq!(t.next(0).text, first.text);
    let all = simulated_segments();
    assert_eq!(all.len(), 8);
    assert_eq!((all[2].start_ms, all[2].end_ms), (8_000, 11_500));
    assert_eq!(all[7].speaker, "Marcus Lee");
}

#[test]
fn fresh_ids() {
    let a = prefixed_id("mtg_");
    let b = prefixed_id("mtg_");
    assert!(a.starts_with("mtg_") && a.len() == 36);
    assert!(a[4..].chars().all(|c| c.is_ascii_hexdigit() && !c.is_ascii_uppercase()));
    assert_ne!(a, b);
}

#[test]
fn groq_reply_fields_become_summary_and_items() {
    let content = r#"{"tldr":" Plan ","keyPoints":[" a ","  ",5],"decisions":"none","actionItems":[{"text":" Ship it ","assignee":"null"},{"text":"  "},{"text":"Triage","assignee":" Dana "}]}"#;
    let (s, items) = groq_reply(content, "llama", 42).unwrap();
    assert_eq!(s.tldr, " Plan ");
    assert_eq!(s.key_points, vec!["a".to_string()]);
    assert!(s.decisions.is_empty());
    assert_eq!(s.generated_at_ms, 42);
    assert_eq!(s.model, "groq · llama");
    assert_eq!(items.len(), 2);
    assert_eq!(items[0].text, "Ship it");
    assert!(items[0].assignee.is_none());
    assert!(items[0].id.starts_with("a_") && !items[0].done && items[0].due_date.is_none());
    assert_eq!(items[1].text, "Triage");
    assert_eq!(items[1].assignee.as_deref(), Some("Dana"));
}

#[test]
fn groq_reply_without_fields_is_empty() {
    let (s, items) = groq_reply("[1, 2]", "m", 0).unwrap();
    assert_eq!(s.tldr, "");
    assert!(s.key_points.is_empty() && s.decisions.is_empty() && items.is_empty());
}

#[test]
fn groq_reply_that_is_not_json_is_refused() {
    match groq_reply("not json", "m", 0) {
        Err(AppError::Other(t)) => assert!(t.starts_with("Groq returned invalid JSON: ") && t.len() > 28),
        _ => panic!("expected an invalid-JSON error"),
    }
}

#[test]
fn applying_results_leaves_other_fields_alone() {
    let mut m = Meeting::new_live("Sync".to_string(), MeetingPlatform::Zoom, CaptureMode::Record);
    m.is_starred = true;
    m.is_locked = true;
    m.audio_path = Some("/rec/a.wav".to_string());
    let gone = apply_transcription(&mut m, simulated_segments(), Vec::new(), false);
    assert!(gone.is_none());
    assert!(m.is_starred && m.is_locked);
    assert_eq!(m.audio_path.as_deref(), Some("/rec/a.wav"));
    assert_eq!(m.participants.len(), 1);
    let title = m.title.clone();
    let summary = HeuristicSummarizer.summarize(&m);
    apply_summary(&mut m, summary, Vec::new());
    assert!(m.is_starred && m.is_locked);
    assert_eq!(m.title, title);
    assert_eq!(m.status, MeetingStatus::Ready);
}
