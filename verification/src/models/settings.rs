//! User settings and partial updates to them.

use vstd::prelude::*;

use super::meeting::CaptureMode;
use crate::text::{chars_of, string_of, trim, trim_ws};

verus! {

/// UI colour theme.
#[derive(Debug, Clone, Copy, PartialEq, Eq, Structural)]
pub enum ThemePreference {
    Light,
    Dark,
    System,
}

/// User settings.
#[derive(Clone, Debug)]
pub struct Settings {
    pub default_mode: CaptureMode,
    pub auto_record_detected: bool,
    /// Capture the computer's audio output alongside the mic.
    pub capture_system_audio: bool,
    pub cancel_my_noise: bool,
    pub cancel_others_noise: bool,
    pub launch_on_startup: bool,
    pub start_minimized: bool,
    pub save_directory: String,
    pub theme: ThemePreference,
    /// Cloud AI credentials (kept in memory only).
    pub assemblyai_api_key: String,
    pub groq_api_key: String,
    pub groq_model: String,
}

/// The value of a settings record.
#[verifier::ext_equal]
pub struct SettingsModel {
    pub default_mode: CaptureMode,
    pub auto_record_detected: bool,
    pub capture_system_audio: bool,
    pub cancel_my_noise: bool,
    pub cancel_others_noise: bool,
    pub launch_on_startup: bool,
    pub start_minimized: bool,
    pub save_directory: Seq<char>,
    pub theme: ThemePreference,
    pub assemblyai_api_key: Seq<char>,
    pub groq_api_key: Seq<char>,
    pub groq_model: Seq<char>,
}

impl View for Settings {
    type V = SettingsModel;

    open spec fn view(&self) -> SettingsModel {
        SettingsModel {
            default_mode: self.default_mode,
            auto_record_detected: self.auto_record_detected,
            capture_system_audio: self.capture_system_audio,
            cancel_my_noise: self.cancel_my_noise,
            cancel_others_noise: self.cancel_others_noise,
            launch_on_startup: self.launch_on_startup,
            start_minimized: self.start_minimized,
            save_directory: self.save_directory@,
            theme: self.theme,
            assemblyai_api_key: self.assemblyai_api_key@,
            groq_api_key: self.groq_api_key@,
            groq_model: self.groq_model@,
        }
    }
}

/// A partial update: every field is optional so one toggle can change at a time.
#[derive(Clone, Debug)]
pub struct SettingsPatch {
    pub default_mode: Option<CaptureMode>,
    pub auto_record_detected: Option<bool>,
    pub capture_system_audio: Option<bool>,
    pub cancel_my_noise: Option<bool>,
    pub cancel_others_noise: Option<bool>,
    pub launch_on_startup: Option<bool>,
    pub start_minimized: Option<bool>,
    pub save_directory: Option<String>,
    pub theme: Option<ThemePreference>,
    pub assemblyai_api_key: Option<String>,
    pub groq_api_key: Option<String>,
    pub groq_model: Option<String>,
}

/// The value of a patch.
#[verifier::ext_equal]
pub struct PatchModel {
    pub default_mode: Option<CaptureMode>,
    pub auto_record_detected: Option<bool>,
    pub capture_system_audio: Option<bool>,
    pub cancel_my_noise: Option<bool>,
    pub cancel_others_noise: Option<bool>,
    pub launch_on_startup: Option<bool>,
    pub start_minimized: Option<bool>,
    pub save_directory: Option<Seq<char>>,
    pub theme: Option<ThemePreference>,
    pub assemblyai_api_key: Option<Seq<char>>,
    pub groq_api_key: Option<Seq<char>>,
    pub groq_model: Option<Seq<char>>,
}

/// The text of an optional string.
pub open spec fn opt_text(o: Option<String>) -> Option<Seq<char>> {
    match o {
        Some(s) => Some(s@),
        None => None,
    }
}

impl View for SettingsPatch {
    type V = PatchModel;

    open spec fn view(&self) -> PatchModel {
        PatchModel {
            default_mode: self.default_mode,
            auto_record_detected: self.auto_record_detected,
            capture_system_audio: self.capture_system_audio,
            cancel_my_noise: self.cancel_my_noise,
            cancel_others_noise: self.cancel_others_noise,
            launch_on_startup: self.launch_on_startup,
            start_minimized: self.start_minimized,
            save_directory: opt_text(self.save_directory),
            theme: self.theme,
            assemblyai_api_key: opt_text(self.assemblyai_api_key),
            groq_api_key: opt_text(self.groq_api_key),
            groq_model: opt_text(self.groq_model),
        }
    }
}

/// `new` when given, else `old`.
pub open spec fn or_keep<T>(new: Option<T>, old: T) -> T {
    match new {
        Some(v) => v,
        None => old,
    }
}

/// Settings `s` with every field that `p` carries replaced by `p`'s value.
pub open spec fn patched(s: SettingsModel, p: PatchModel) -> SettingsModel {
    SettingsModel {
        default_mode: or_keep(p.default_mode, s.default_mode),
        auto_record_detected: or_keep(p.auto_record_detected, s.auto_record_detected),
        capture_system_audio: or_keep(p.capture_system_audio, s.capture_system_audio),
        cancel_my_noise: or_keep(p.cancel_my_noise, s.cancel_my_noise),
        cancel_others_noise: or_keep(p.cancel_others_noise, s.cancel_others_noise),
        launch_on_startup: or_keep(p.launch_on_startup, s.launch_on_startup),
        start_minimized: or_keep(p.start_minimized, s.start_minimized),
        save_directory: or_keep(p.save_directory, s.save_directory),
        theme: or_keep(p.theme, s.theme),
        assemblyai_api_key: or_keep(p.assemblyai_api_key, s.assemblyai_api_key),
        groq_api_key: or_keep(p.groq_api_key, s.groq_api_key),
        groq_model: or_keep(p.groq_model, s.groq_model),
    }
}

/// The patch that changes nothing.
pub open spec fn empty_patch() -> PatchModel {
    PatchModel {
        default_mode: None,
        auto_record_detected: None,
        capture_system_audio: None,
        cancel_my_noise: None,
        cancel_others_noise: None,
        launch_on_startup: None,
        start_minimized: None,
        save_directory: None,
        theme: None,
        assemblyai_api_key: None,
        groq_api_key: None,
        groq_model: None,
    }
}

/// `q`'s fields where it has them, else `p`'s: applying `p` then `q`.
pub open spec fn merged(p: PatchModel, q: PatchModel) -> PatchModel {
    PatchModel {
        default_mode: if q.default_mode is Some { q.default_mode } else { p.default_mode },
        auto_record_detected: if q.auto_record_detected is Some { q.auto_record_detected } else { p.auto_record_detected },
        capture_system_audio: if q.capture_system_audio is Some { q.capture_system_audio } else { p.capture_system_audio },
        cancel_my_noise: if q.cancel_my_noise is Some { q.cancel_my_noise } else { p.cancel_my_noise },
        cancel_others_noise: if q.cancel_others_noise is Some { q.cancel_others_noise } else { p.cancel_others_noise },
        launch_on_startup: if q.launch_on_startup is Some { q.launch_on_startup } else { p.launch_on_startup },
        start_minimized: if q.start_minimized is Some { q.start_minimized } else { p.start_minimized },
        save_directory: if q.save_directory is Some { q.save_directory } else { p.save_directory },
        theme: if q.theme is Some { q.theme } else { p.theme },
        assemblyai_api_key: if q.assemblyai_api_key is Some { q.assemblyai_api_key } else { p.assemblyai_api_key },
        groq_api_key: if q.groq_api_key is Some { q.groq_api_key } else { p.groq_api_key },
        groq_model: if q.groq_model is Some { q.groq_model } else { p.groq_model },
    }
}

/// The trimmed value when it is non-empty, else `default`.
pub open spec fn spec_env_or_default(value: Option<Seq<char>>, default: Seq<char>) -> Seq<char> {
    match value {
        Some(v) => if trim_ws(v).len() > 0 { trim_ws(v) } else { default },
        None => default,
    }
}

/// `c`, with a backslash turned into a forward slash.
pub open spec fn slash(c: char) -> char {
    if c == '\\' { '/' } else { c }
}

/// A trimmed, non-empty setting value (from the environment), or `default`.
pub fn env_or_default(value: Option<&str>, default: &str) -> (r: String)
    ensures
        r@ == spec_env_or_default(
            match value {
                Some(v) => Some(v@),
                None => None,
            },
            default@,
        ),
{
    match value {
        Some(v) => {
            let t = trim(&chars_of(v));
            if t.len() > 0 {
                string_of(&t)
            } else {
                String::from_str(default)
            }
        },
        None => String::from_str(default),
    }
}

/// Default Groq model name.
pub open spec fn default_groq_model() -> Seq<char> {
    "llama-3.3-70b-versatile"@
}

impl Settings {
    /// Default settings saving to `dir` (backslashes written as `/`). Cloud
    /// credentials come from the given environment values (trimmed, when
    /// non-empty), else blank; the model defaults to `llama-3.3-70b-versatile`.
    pub fn with_default_dir(
        dir: &str,
        assemblyai_env: Option<&str>,
        groq_env: Option<&str>,
        groq_model_env: Option<&str>,
    ) -> (s: Settings)
        ensures
            s.default_mode == CaptureMode::Off,
            s.auto_record_detected,
            s.capture_system_audio,
            !s.cancel_my_noise && !s.cancel_others_noise,
            !s.launch_on_startup && !s.start_minimized,
            s.save_directory@ == dir@.map_values(|c: char| slash(c)),
            s.theme == ThemePreference::Light,
            s.assemblyai_api_key@ == spec_env_or_default(
                match assemblyai_env { Some(v) => Some(v@), None => None },
                Seq::empty(),
            ),
            s.groq_api_key@ == spec_env_or_default(
                match groq_env { Some(v) => Some(v@), None => None },
                Seq::empty(),
            ),
            s.groq_model@ == spec_env_or_default(
                match groq_model_env { Some(v) => Some(v@), None => None },
                default_groq_model(),
            ),
    {
        let d = chars_of(dir);
        let mut out: Vec<char> = Vec::new();
        for i in 0..d.len()
            invariant
                d@ == dir@,
                out@ == d@.subrange(0, i as int).map_values(|c: char| slash(c)),
        {
            let c = d[i];
            out.push(if c == '\\' { '/' } else { c });
            assert(out@ =~= d@.subrange(0, i + 1).map_values(|c: char| slash(c)));
        }
        assert(d@.subrange(0, d@.len() as int) =~= d@);
        proof {
            reveal_strlit("");
        }
        Settings {
            default_mode: CaptureMode::Off,
            auto_record_detected: true,
            capture_system_audio: true,
            cancel_my_noise: false,
            cancel_others_noise: false,
            launch_on_startup: false,
            start_minimized: false,
            save_directory: string_of(&out),
            theme: ThemePreference::Light,
            assemblyai_api_key: env_or_default(assemblyai_env, ""),
            groq_api_key: env_or_default(groq_env, ""),
            groq_model: env_or_default(groq_model_env, "llama-3.3-70b-versatile"),
        }
    }

    /// Apply a partial update: every field the patch carries replaces the
    /// current value; the others are left as they are.
    #[verifier::spinoff_prover]
    #[verifier::rlimit(40)]
    pub fn apply(&mut self, patch: SettingsPatch)
        ensures
            final(self)@ == patched(old(self)@, patch@),
            patch.default_mode matches Some(v) ==> final(self).default_mode == v,
            patch.default_mode is None ==> final(self).default_mode == old(self).default_mode,
            patch.auto_record_detected matches Some(v) ==> final(self).auto_record_detected == v,
            patch.auto_record_detected is None ==> final(self).auto_record_detected == old(self).auto_record_detected,
            patch.capture_system_audio matches Some(v) ==> final(self).capture_system_audio == v,
            patch.capture_system_audio is None ==> final(self).capture_system_audio == old(self).capture_system_audio,
            patch.cancel_my_noise matches Some(v) ==> final(self).cancel_my_noise == v,
            patch.cancel_my_noise is None ==> final(self).cancel_my_noise == old(self).cancel_my_noise,
            patch.cancel_others_noise matches Some(v) ==> final(self).cancel_others_noise == v,
            patch.cancel_others_noise is None ==> final(self).cancel_others_noise == old(self).cancel_others_noise,
            patch.launch_on_startup matches Some(v) ==> final(self).launch_on_startup == v,
            patch.launch_on_startup is None ==> final(self).launch_on_startup == old(self).launch_on_startup,
            patch.start_minimized matches Some(v) ==> final(self).start_minimized == v,
            patch.start_minimized is None ==> final(self).start_minimized == old(self).start_minimized,
            patch.theme matches Some(v) ==> final(self).theme == v,
            patch.theme is None ==> final(self).theme == old(self).theme,
            patch.save_directory matches Some(v) ==> final(self).save_directory@ == v@,
            patch.save_directory is None ==> final(self).save_directory@ == old(self).save_directory@,
            patch.assemblyai_api_key matches Some(v) ==> final(self).assemblyai_api_key@ == v@,
            patch.assemblyai_api_key is None ==> final(self).assemblyai_api_key@ == old(self).assemblyai_api_key@,
            patch.groq_api_key matches Some(v) ==> final(self).groq_api_key@ == v@,
            patch.groq_api_key is None ==> final(self).groq_api_key@ == old(self).groq_api_key@,
            patch.groq_model matches Some(v) ==> final(self).groq_model@ == v@,
            patch.groq_model is None ==> final(self).groq_model@ == old(self).groq_model@,
    {
        let SettingsPatch {
            default_mode,
            auto_record_detected,
            capture_system_audio,
            cancel_my_noise,
            cancel_others_noise,
            launch_on_startup,
            start_minimized,
            save_directory,
            theme,
            assemblyai_api_key,
            groq_api_key,
            groq_model,
        } = patch;
        self.default_mode = match default_mode { Some(v) => v, None => self.default_mode };
        self.auto_record_detected = keep_flag(auto_record_detected, self.auto_record_detected);
        self.capture_system_audio = keep_flag(capture_system_audio, self.capture_system_audio);
        self.cancel_my_noise = keep_flag(cancel_my_noise, self.cancel_my_noise);
        self.cancel_others_noise = keep_flag(cancel_others_noise, self.cancel_others_noise);
        self.launch_on_startup = keep_flag(launch_on_startup, self.launch_on_startup);
        self.start_minimized = keep_flag(start_minimized, self.start_minimized);
        replace_text(&mut self.save_directory, save_directory);
        self.theme = match theme { Some(v) => v, None => self.theme };
        replace_text(&mut self.assemblyai_api_key, assemblyai_api_key);
        replace_text(&mut self.groq_api_key, groq_api_key);
        replace_text(&mut self.groq_model, groq_model);
    }
}

/// The new flag when given, else the old one.
fn keep_flag(new: Option<bool>, old: bool) -> (r: bool)
    ensures
        r == or_keep(new, old),
{
    match new {
        Some(v) => v,
        None => old,
    }
}

/// Replace `dst` by `new` when given.
fn replace_text(dst: &mut String, new: Option<String>)
    ensures
        final(dst)@ == or_keep(opt_text(new), old(dst)@),
{
    if let Some(v) = new {
        *dst = v;
    }
}

/// A patch with no fields set changes nothing.
pub proof fn lemma_empty_patch_is_identity(s: SettingsModel)
    ensures
        patched(s, empty_patch()) == s,
{
    assert(patched(s, empty_patch()) =~= s);
}

/// Applying the same patch twice is the same as applying it once.
pub proof fn lemma_apply_idempotent(s: SettingsModel, p: PatchModel)
    ensures
        patched(patched(s, p), p) == patched(s, p),
{
    assert(patched(patched(s, p), p) =~= patched(s, p));
}

/// Applying `p` and then `q` is applying their merge, where `q` wins.
pub proof fn lemma_apply_composes(s: SettingsModel, p: PatchModel, q: PatchModel)
    ensures
        patched(patched(s, p), q) == patched(s, merged(p, q)),
{
    assert(patched(patched(s, p), q) =~= patched(s, merged(p, q)));
}

/// A patch sets exactly the fields it carries: each field given in the patch
/// takes the patch's value, each field left out keeps its value.
pub proof fn law_patch_sets_carried_fields(s: SettingsModel, p: PatchModel)
    ensures
        p.default_mode matches Some(v) ==> patched(s, p).default_mode == v,
        p.default_mode is None ==> patched(s, p).default_mode == s.default_mode,
        p.auto_record_detected matches Some(v) ==> patched(s, p).auto_record_detected == v,
        p.auto_record_detected is None ==> patched(s, p).auto_record_detected == s.auto_record_detected,
        p.capture_system_audio matches Some(v) ==> patched(s, p).capture_system_audio == v,
        p.capture_system_audio is None ==> patched(s, p).capture_system_audio == s.capture_system_audio,
        p.cancel_my_noise matches Some(v) ==> patched(s, p).cancel_my_noise == v,
        p.cancel_my_noise is None ==> patched(s, p).cancel_my_noise == s.cancel_my_noise,
        p.cancel_others_noise matches Some(v) ==> patched(s, p).cancel_others_noise == v,
        p.cancel_others_noise is None ==> patched(s, p).cancel_others_noise == s.cancel_others_noise,
        p.launch_on_startup matches Some(v) ==> patched(s, p).launch_on_startup == v,
        p.launch_on_startup is None ==> patched(s, p).launch_on_startup == s.launch_on_startup,
        p.start_minimized matches Some(v) ==> patched(s, p).start_minimized == v,
        p.start_minimized is None ==> patched(s, p).start_minimized == s.start_minimized,
        p.theme matches Some(v) ==> patched(s, p).theme == v,
        p.theme is None ==> patched(s, p).theme == s.theme,
        p.save_directory matches Some(v) ==> patched(s, p).save_directory == v,
        p.save_directory is None ==> patched(s, p).save_directory == s.save_directory,
        p.assemblyai_api_key matches Some(v) ==> patched(s, p).assemblyai_api_key == v,
        p.assemblyai_api_key is None ==> patched(s, p).assemblyai_api_key == s.assemblyai_api_key,
        p.groq_api_key matches Some(v) ==> patched(s, p).groq_api_key == v,
        p.groq_api_key is None ==> patched(s, p).groq_api_key == s.groq_api_key,
        p.groq_model matches Some(v) ==> patched(s, p).groq_model == v,
        p.groq_model is None ==> patched(s, p).groq_model == s.groq_model,
{
}

} // verus!
