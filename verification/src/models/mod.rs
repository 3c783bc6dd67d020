//! The data model shared by the recorder, the library and the UI.

pub mod copy;
pub mod meeting;
pub mod recorder;
pub mod settings;

pub use meeting::{
    ActionItem, CaptureMode, Meeting, MeetingPlatform, MeetingStatus, MeetingSummary,
    Participant, TimelineKind, TimelineMarker, TranscriptSegment,
};
pub use recorder::{AudioHealth, DetectedMeeting, RecorderState, RecorderStatus};
pub use settings::{Settings, SettingsPatch, ThemePreference};
