//! The tray icon's tooltip and menu.

use vstd::prelude::*;

use crate::models::{CaptureMode, RecorderState};
use crate::text::same_text;

verus! {

/// The tray tooltip for a recorder state.
pub open spec fn spec_tooltip(s: RecorderState) -> Seq<char> {
    match s {
        RecorderState::Recording => "MeetApp — recording"@,
        RecorderState::Processing => "MeetApp — processing"@,
        RecorderState::Detecting => "MeetApp — meeting detected"@,
        RecorderState::Armed => "MeetApp — armed"@,
        RecorderState::Error => "MeetApp — error"@,
        RecorderState::Idle => "MeetApp — idle"@,
    }
}

/// The tooltip reflecting the recorder state.
pub fn tooltip_for(state: RecorderState) -> (r: &'static str)
    ensures
        r@ == spec_tooltip(state),
{
    match state {
        RecorderState::Recording => "MeetApp — recording",
        RecorderState::Processing => "MeetApp — processing",
        RecorderState::Detecting => "MeetApp — meeting detected",
        RecorderState::Armed => "MeetApp — armed",
        RecorderState::Error => "MeetApp — error",
        RecorderState::Idle => "MeetApp — idle",
    }
}

/// What a tray-menu entry does.
#[derive(Debug, Clone, Copy, PartialEq, Eq, Structural)]
pub enum MenuAction {
    ShowMain,
    TogglePanel,
    Quit,
    ToggleRecord,
    SetMode(CaptureMode),
    Nothing,
}

/// The action of the menu entry with id `id`.
pub open spec fn spec_menu_action(id: Seq<char>) -> MenuAction {
    if id == "open"@ {
        MenuAction::ShowMain
    } else if id == "panel"@ {
        MenuAction::TogglePanel
    } else if id == "quit"@ {
        MenuAction::Quit
    } else if id == "toggle_record"@ {
        MenuAction::ToggleRecord
    } else if id == "mode_transcribe"@ {
        MenuAction::SetMode(CaptureMode::Transcribe)
    } else if id == "mode_record"@ {
        MenuAction::SetMode(CaptureMode::Record)
    } else if id == "mode_recordVideo"@ {
        MenuAction::SetMode(CaptureMode::RecordVideo)
    } else if id == "mode_off"@ {
        MenuAction::SetMode(CaptureMode::Off)
    } else {
        MenuAction::Nothing
    }
}

/// Map a tray-menu entry id to its action.
pub fn menu_action(id: &str) -> (r: MenuAction)
    ensures
        r == spec_menu_action(id@),
{
    if same_text(id, "open") {
        MenuAction::ShowMain
    } else if same_text(id, "panel") {
        MenuAction::TogglePanel
    } else if same_text(id, "quit") {
        MenuAction::Quit
    } else if same_text(id, "toggle_record") {
        MenuAction::ToggleRecord
    } else if same_text(id, "mode_transcribe") {
        MenuAction::SetMode(CaptureMode::Transcribe)
    } else if same_text(id, "mode_record") {
        MenuAction::SetMode(CaptureMode::Record)
    } else if same_text(id, "mode_recordVideo") {
        MenuAction::SetMode(CaptureMode::RecordVideo)
    } else if same_text(id, "mode_off") {
        MenuAction::SetMode(CaptureMode::Off)
    } else {
        MenuAction::Nothing
    }
}

/// The recorder state after the note-taker mode changes: switching off idles
/// the recorder unless it is recording; switching on arms an idle recorder;
/// any other state is kept.
pub open spec fn spec_state_after_mode(mode: CaptureMode, current: RecorderState) -> RecorderState {
    if mode == CaptureMode::Off {
        if current != RecorderState::Recording { RecorderState::Idle } else { current }
    } else {
        if current == RecorderState::Idle { RecorderState::Armed } else { current }
    }
}

/// The recorder state after the note-taker mode changes.
pub fn state_after_mode(mode: CaptureMode, current: RecorderState) -> (r: RecorderState)
    ensures
        r == spec_state_after_mode(mode, current),
{
    match mode {
        CaptureMode::Off => if current != RecorderState::Recording { RecorderState::Idle } else { current },
        _ => if current == RecorderState::Idle { RecorderState::Armed } else { current },
    }
}

/// Changing the mode never interrupts a recording: a recording recorder is
/// still recording afterwards, whatever the new mode.
pub proof fn lemma_mode_change_keeps_recording(mode: CaptureMode)
    ensures
        spec_state_after_mode(mode, RecorderState::Recording) == RecorderState::Recording,
{
}

/// Setting the same mode twice is the same as setting it once.
pub proof fn lemma_mode_change_idempotent(mode: CaptureMode, s: RecorderState)
    ensures
        spec_state_after_mode(mode, spec_state_after_mode(mode, s)) == spec_state_after_mode(mode, s),
{
}

} // verus!
