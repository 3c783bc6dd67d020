//! Diagnosing and repairing an impaired shared-mode audio engine: the verdict
//! drawn from the probe results, the elevated repair script, and the PCM
//! formats tried in exclusive mode.

use vstd::prelude::*;

use crate::models::AudioHealth;
use crate::text::{chars_of, push_char};

verus! {

/// The verdict text for a healthy engine.
pub open spec fn healthy_detail() -> Seq<char> {
    "Shared-mode audio is healthy — the microphone and system audio record normally."@
}

/// The verdict text when only exclusive mode works.
pub open spec fn exclusive_only_detail() -> Seq<char> {
    "Windows shared-mode audio is impaired (a broken audio enhancement). The mic still records via exclusive mode; repairing restores normal shared mode so it also works alongside meeting apps."@
}

/// The verdict text when nothing initializes.
pub open spec fn broken_detail() -> Seq<char> {
    "Windows shared-mode audio failed to initialize. Try the repair, then re-check; if it persists, verify the microphone and Windows privacy settings."@
}

/// The audio health from the probe results: the microphone's shared-mode
/// initialization, the render endpoint's (absent when there is no render
/// endpoint), and whether exclusive-mode capture works. Shared mode is healthy
/// when the microphone and any render endpoint initialize; otherwise a repair
/// is recommended.
pub fn health_from_probe(mic_shared: bool, render_shared: Option<bool>, exclusive_ok: bool) -> (h: AudioHealth)
    ensures
        h.supported,
        h.shared_ok == (mic_shared && (render_shared matches Some(r) ==> r)),
        h.exclusive_ok == exclusive_ok,
        h.needs_repair == !h.shared_ok,
        h.detail@ == (if h.shared_ok { healthy_detail() } else if exclusive_ok { exclusive_only_detail() } else { broken_detail() }),
{
    let shared_ok = mic_shared && match render_shared {
        Some(r) => r,
        None => true,
    };
    let detail = if shared_ok {
        String::from_str("Shared-mode audio is healthy — the microphone and system audio record normally.")
    } else if exclusive_ok {
        String::from_str("Windows shared-mode audio is impaired (a broken audio enhancement). The mic still records via exclusive mode; repairing restores normal shared mode so it also works alongside meeting apps.")
    } else {
        String::from_str("Windows shared-mode audio failed to initialize. Try the repair, then re-check; if it persists, verify the microphone and Windows privacy settings.")
    };
    AudioHealth { supported: true, shared_ok, exclusive_ok, needs_repair: !shared_ok, detail }
}

/// The health report where the shared-mode issue cannot occur (not Windows).
pub fn unsupported_health() -> (h: AudioHealth)
    ensures
        !h.supported && !h.shared_ok && !h.exclusive_ok && !h.needs_repair,
        h.detail@ == "Audio repair is only needed on Windows."@,
{
    AudioHealth {
        supported: false,
        shared_ok: false,
        exclusive_ok: false,
        needs_repair: false,
        detail: String::from_str("Audio repair is only needed on Windows."),
    }
}

/// `s` with every single quote doubled (PowerShell single-quoted escaping).
pub open spec fn escape_quotes(s: Seq<char>) -> Seq<char>
    decreases s.len(),
{
    if s.len() == 0 {
        Seq::empty()
    } else {
        let prev = escape_quotes(s.drop_last());
        if s.last() == '\'' { prev.push('\'').push('\'') } else { prev.push(s.last()) }
    }
}

/// The script lines that disable system effects on one endpoint.
pub open spec fn endpoint_lines(flow: Seq<char>, id: Seq<char>) -> Seq<char> {
    "$p = 'HKLM:\\SOFTWARE\\Microsoft\\Windows\\CurrentVersion\\MMDevices\\Audio\\"@ + flow + "\\"@
        + escape_quotes(id) + "\\FxProperties'\n"@
        + "if (-not (Test-Path $p)) { New-Item -Path $p -Force | Out-Null }\n"@
        + "New-ItemProperty -Path $p -Name $disable -PropertyType DWord -Value 1 -Force | Out-Null\n"@
}

/// Append the lines that disable system effects on endpoint `id` of `flow`
/// (`Capture` or `Render`).
pub fn push_endpoint(s: &mut String, flow: &str, id: &str)
    ensures
        final(s)@ == old(s)@ + endpoint_lines(flow@, id@),
{
    let c = chars_of(id);
    let mut escaped = String::new();
    for i in 0..c.len()
        invariant
            c@ == id@,
            escaped@ == escape_quotes(c@.take(i as int)),
    {
        proof {
            assert(c@.take(i + 1).drop_last() =~= c@.take(i as int));
        }
        if c[i] == '\'' {
            push_char(&mut escaped, '\'');
            push_char(&mut escaped, '\'');
        } else {
            push_char(&mut escaped, c[i]);
        }
    }
    assert(c@.take(c@.len() as int) =~= c@);
    s.append("$p = 'HKLM:\\SOFTWARE\\Microsoft\\Windows\\CurrentVersion\\MMDevices\\Audio\\");
    s.append(flow);
    s.append("\\");
    s.append(escaped.as_str());
    s.append("\\FxProperties'\n");
    s.append("if (-not (Test-Path $p)) { New-Item -Path $p -Force | Out-Null }\n");
    s.append("New-ItemProperty -Path $p -Name $disable -PropertyType DWord -Value 1 -Force | Out-Null\n");
}

/// The repair script: continue on errors, name the "disable system effects"
/// property, disable it on the capture and/or render endpoint given, then
/// restart the Windows Audio service.
pub open spec fn repair_script(cap: Option<Seq<char>>, ren: Option<Seq<char>>) -> Seq<char> {
    "$ErrorActionPreference = 'Continue'\n"@ + "$disable = '{e0f158e1-cb04-4c4b-aefd-f2df462b0c1c},5'\n"@
        + (match cap { Some(id) => endpoint_lines("Capture"@, id), None => Seq::empty() })
        + (match ren { Some(id) => endpoint_lines("Render"@, id), None => Seq::empty() })
        + "Restart-Service -Name Audiosrv -Force -ErrorAction SilentlyContinue\n"@
}

/// The text of an optional string slice.
pub open spec fn opt_text(v: Option<&str>) -> Option<Seq<char>> {
    match v {
        Some(t) => Some(t@),
        None => None,
    }
}

/// Build the elevated PowerShell repair script for the given endpoint ids.
pub fn build_repair_script(cap: Option<&str>, ren: Option<&str>) -> (r: String)
    ensures
        r@ == repair_script(opt_text(cap), opt_text(ren)),
{
    let mut s = String::new();
    s.append("$ErrorActionPreference = 'Continue'\n");
    s.append("$disable = '{e0f158e1-cb04-4c4b-aefd-f2df462b0c1c},5'\n");
    let ghost head = s@;
    if let Some(id) = cap {
        push_endpoint(&mut s, "Capture", id);
    }
    let ghost mid = s@;
    if let Some(id) = ren {
        push_endpoint(&mut s, "Render", id);
    }
    let ghost tail = s@;
    s.append("Restart-Service -Name Audiosrv -Force -ErrorAction SilentlyContinue\n");
    proof {
        reveal_strlit("");
        assert(s@ =~= repair_script(opt_text(cap), opt_text(ren)));
    }
    s
}

/// An integer-PCM `WAVEFORMATEX` description.
pub struct WaveFormat {
    pub format_tag: u16,
    pub channels: u16,
    pub samples_per_sec: u32,
    pub avg_bytes_per_sec: u32,
    pub block_align: u16,
    pub bits_per_sample: u16,
    pub extra_size: u16,
}

/// `WAVE_FORMAT_PCM`.
pub const WAVE_FORMAT_PCM: u16 = 0x0001;

/// A plain integer-PCM format: frames of `channels` samples of `bits` bits.
pub fn pcm_format(rate: u32, channels: u16, bits: u16) -> (f: WaveFormat)
    requires
        channels * (bits / 8) <= u16::MAX,
        rate * (channels * (bits / 8)) <= u32::MAX,
    ensures
        f.format_tag == WAVE_FORMAT_PCM,
        f.channels == channels,
        f.samples_per_sec == rate,
        f.block_align == channels * (bits / 8),
        f.avg_bytes_per_sec == rate * (channels * (bits / 8)),
        f.bits_per_sample == bits,
        f.extra_size == 0,
{
    let block_align = channels * (bits / 8);
    WaveFormat {
        format_tag: WAVE_FORMAT_PCM,
        channels,
        samples_per_sec: rate,
        avg_bytes_per_sec: rate * block_align as u32,
        block_align,
        bits_per_sample: bits,
        extra_size: 0,
    }
}

} // verus!
