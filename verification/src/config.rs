//! Application configuration: general, audio and speech settings, their
//! defaults, and the application of overrides read from a settings file.
//!
//! Durations are held in milliseconds and levels in per-mille, so every
//! setting is a plain integer.

use vstd::prelude::*;
use crate::text::{lower_of, lowercase_of, str_eq};
use crate::interpreter::VoiceCommandConfig;

verus! {

/// General application settings.
#[derive(Debug, Clone)]
pub struct GeneralSettings {
    /// Theme (light, dark or system).
    pub theme: String,
    /// Start automatically with the desktop session.
    pub auto_start: bool,
    /// Minimize to tray on startup.
    pub minimize_to_tray: bool,
}

/// Available speech model sizes.
#[derive(Debug, Clone, PartialEq)]
pub enum WhisperModelSize {
    /// Tiny model - fastest, least accurate.
    Tiny,
    /// Base model - fast, less accurate.
    Base,
    /// Small model - balanced speed and accuracy.
    Small,
    /// Medium model - slower, more accurate.
    Medium,
    /// Large model - slowest, most accurate.
    Large,
}

impl Default for WhisperModelSize {
    /// The balanced model.
    fn default() -> (r: Self)
        ensures
            r == WhisperModelSize::Small,
    {
        WhisperModelSize::Small
    }
}

/// The model size a name selects, if any.
pub open spec fn model_for_name(name: Seq<char>) -> Option<WhisperModelSize> {
    if name == "tiny"@ {
        Some(WhisperModelSize::Tiny)
    } else if name == "base"@ {
        Some(WhisperModelSize::Base)
    } else if name == "small"@ {
        Some(WhisperModelSize::Small)
    } else if name == "medium"@ {
        Some(WhisperModelSize::Medium)
    } else if name == "large"@ {
        Some(WhisperModelSize::Large)
    } else {
        None
    }
}

/// Maps a model size name (already lowercase) to the size it selects;
/// unknown names are rejected.
pub fn model_size_from_name(name: &str) -> (r: Result<WhisperModelSize, String>)
    ensures
        match r {
            Ok(size) => model_for_name(name@) == Some(size),
            Err(_) => model_for_name(name@) is None,
        },
{
    if str_eq(name, "tiny") {
        Ok(WhisperModelSize::Tiny)
    } else if str_eq(name, "base") {
        Ok(WhisperModelSize::Base)
    } else if str_eq(name, "small") {
        Ok(WhisperModelSize::Small)
    } else if str_eq(name, "medium") {
        Ok(WhisperModelSize::Medium)
    } else if str_eq(name, "large") {
        Ok(WhisperModelSize::Large)
    } else {
        Err(String::from_str("invalid model size"))
    }
}

/// Speech recognition settings. Durations are in milliseconds.
#[derive(Debug, Clone)]
pub struct SpeechSettings {
    /// Speech model size.
    pub model_size: WhisperModelSize,
    /// Path to the model directory.
    pub model_path: Option<String>,
    /// Language for transcription (blank or "auto" for auto-detect).
    pub language: String,
    /// Whether to automatically add punctuation.
    pub auto_punctuate: bool,
    /// Whether to translate non-English speech to English.
    pub translate_to_english: bool,
    /// Whether to use enhanced context-aware formatting.
    pub context_formatting: bool,
    /// Segment duration in milliseconds.
    pub segment_duration: u32,
    /// Whether to save the transcription to a file.
    pub save_transcription: bool,
    /// Transcription output format: "txt" or "json".
    pub output_format: String,
    /// Buffer size in milliseconds for streaming.
    pub buffer_size: u32,
}

impl SpeechSettings {
    /// Sets the model size from a user-given name; the name is lowercased
    /// first, and an unknown name is rejected without a change.
    pub fn set_model_size_from_str(&mut self, model_str: &str) -> (r: Result<(), String>)
        ensures
            ({
                let chosen = model_for_name(lower_of(model_str@));
                match r {
                    Ok(_) => chosen matches Some(size) && final(self).model_size == size,
                    Err(_) => chosen is None && final(self).model_size == old(self).model_size,
                }
            }),
            final(self).model_path == old(self).model_path,
            final(self).language == old(self).language,
            final(self).auto_punctuate == old(self).auto_punctuate,
            final(self).translate_to_english == old(self).translate_to_english,
            final(self).context_formatting == old(self).context_formatting,
            final(self).segment_duration == old(self).segment_duration,
            final(self).save_transcription == old(self).save_transcription,
            final(self).output_format == old(self).output_format,
            final(self).buffer_size == old(self).buffer_size,
    {
        let lowered = lowercase_of(model_str);
        match model_size_from_name(lowered.as_str()) {
            Ok(size) => {
                self.model_size = size;
                Ok(())
            },
            Err(e) => Err(e),
        }
    }
}

/// Audio configuration. The input volume is per-mille: 1000 is unity gain.
#[derive(Debug, Clone)]
pub struct AudioSettings {
    /// Input device name.
    pub input_device: Option<String>,
    /// Input volume level in per-mille (0..=1000).
    pub input_volume: u32,
    /// Speech recognition settings.
    pub speech: SpeechSettings,
    /// Voice command settings.
    pub voice_commands: VoiceCommandConfig,
}

/// Application configuration.
#[derive(Debug, Clone)]
pub struct Config {
    /// Version of the configuration.
    pub version: String,
    /// General application settings.
    pub general: GeneralSettings,
    /// Audio device settings.
    pub audio: AudioSettings,
}

impl Default for Config {
    /// The configuration a fresh installation starts from.
    fn default() -> (r: Self)
        ensures
            r.version@ == "0.1.0"@,
            r.general.theme@ == "system"@,
            r.general.auto_start == false,
            r.general.minimize_to_tray == true,
            r.audio.input_device is None,
            r.audio.input_volume == 1000,
            r.audio.speech.model_size == WhisperModelSize::Small,
            r.audio.speech.model_path is None,
            r.audio.speech.language@ == "auto"@,
            r.audio.speech.auto_punctuate == true,
            r.audio.speech.translate_to_english == false,
            r.audio.speech.context_formatting == true,
            r.audio.speech.segment_duration == 5000,
            r.audio.speech.save_transcription == false,
            r.audio.speech.output_format@ == "txt"@,
            r.audio.speech.buffer_size == 3000,
            r.audio.voice_commands.enabled == true,
            r.audio.voice_commands.command_prefix is None,
            r.audio.voice_commands.require_prefix == false,
            r.audio.voice_commands.sensitivity == 800,
    {
        Config {
            version: String::from_str("0.1.0"),
            general: GeneralSettings {
                theme: String::from_str("system"),
                auto_start: false,
                minimize_to_tray: true,
            },
            audio: AudioSettings {
                input_device: None,
                input_volume: 1000,
                speech: SpeechSettings {
                    model_size: WhisperModelSize::default(),
                    model_path: None,
                    language: String::from_str("auto"),
                    auto_punctuate: true,
                    translate_to_english: false,
                    context_formatting: true,
                    segment_duration: 5000,
                    save_transcription: false,
                    output_format: String::from_str("txt"),
                    buffer_size: 3000,
                },
                voice_commands: VoiceCommandConfig::default(),
            },
        }
    }
}

/// Overrides read from a settings file; only the fields that are present
/// replace the configured values. An empty device or model path stands for
/// "not set" and is ignored, as in the file format.
#[derive(Debug, Clone)]
pub struct SettingsPatch {
    /// Theme override.
    pub theme: Option<String>,
    /// Auto-start override.
    pub auto_start: Option<bool>,
    /// Minimize-to-tray override.
    pub minimize_to_tray: Option<bool>,
    /// Input device override; an empty name is ignored.
    pub input_device: Option<String>,
    /// Input volume override, per-mille.
    pub input_volume: Option<u32>,
    /// Model size override, by name.
    pub model_size: Option<WhisperModelSize>,
    /// Model path override; an empty path is ignored.
    pub model_path: Option<String>,
    /// Language override.
    pub language: Option<String>,
    /// Auto-punctuation override.
    pub auto_punctuate: Option<bool>,
    /// Translation override.
    pub translate_to_english: Option<bool>,
    /// Context-formatting override.
    pub context_formatting: Option<bool>,
    /// Segment duration override, milliseconds.
    pub segment_duration: Option<u32>,
    /// Save-transcription override.
    pub save_transcription: Option<bool>,
    /// Output format override.
    pub output_format: Option<String>,
    /// Buffer size override, milliseconds.
    pub buffer_size: Option<u32>,
    /// Voice commands enabled override.
    pub vc_enabled: Option<bool>,
    /// Command prefix override.
    pub vc_command_prefix: Option<String>,
    /// Require-prefix override.
    pub vc_require_prefix: Option<bool>,
    /// Sensitivity override, per-mille.
    pub vc_sensitivity: Option<u32>,
}

fn apply_general(g: &mut GeneralSettings, patch: &SettingsPatch)
    ensures
        final(g).theme == (match patch.theme {
            Some(t) => t,
            None => old(g).theme,
        }),
        final(g).auto_start == (match patch.auto_start {
            Some(v) => v,
            None => old(g).auto_start,
        }),
        final(g).minimize_to_tray == (match patch.minimize_to_tray {
            Some(v) => v,
            None => old(g).minimize_to_tray,
        }),
{
    match &patch.theme {
        Some(t) => {
            g.theme = t.clone();
        },
        None => {},
    }
    match &patch.auto_start {
        Some(v) => {
            g.auto_start = *v;
        },
        None => {},
    }
    match &patch.minimize_to_tray {
        Some(v) => {
            g.minimize_to_tray = *v;
        },
        None => {},
    }
}

#[verifier::rlimit(100)]
fn apply_speech(sp: &mut SpeechSettings, patch: &SettingsPatch)
    ensures
        final(sp).model_size == (match patch.model_size {
            Some(m) => m,
            None => old(sp).model_size,
        }),
        final(sp).model_path == (match patch.model_path {
            Some(p) => if p@.len() > 0 {
                Some(p)
            } else {
                old(sp).model_path
            },
            None => old(sp).model_path,
        }),
        final(sp).language == (match patch.language {
            Some(l) => l,
            None => old(sp).language,
        }),
        final(sp).auto_punctuate == (match patch.auto_punctuate {
            Some(v) => v,
            None => old(sp).auto_punctuate,
        }),
        final(sp).translate_to_english == (match patch.translate_to_english {
            Some(v) => v,
            None => old(sp).translate_to_english,
        }),
        final(sp).context_formatting == (match patch.context_formatting {
            Some(v) => v,
            None => old(sp).context_formatting,
        }),
        final(sp).segment_duration == (match patch.segment_duration {
            Some(v) => v,
            None => old(sp).segment_duration,
        }),
        final(sp).save_transcription == (match patch.save_transcription {
            Some(v) => v,
            None => old(sp).save_transcription,
        }),
        final(sp).output_format == (match patch.output_format {
            Some(v) => v,
            None => old(sp).output_format,
        }),
        final(sp).buffer_size == (match patch.buffer_size {
            Some(v) => v,
            None => old(sp).buffer_size,
        }),
{
    match &patch.model_size {
        Some(m) => {
            sp.model_size = clone_model_size(m);
        },
        None => {},
    }
    match &patch.model_path {
        Some(p) => {
            if p.as_str().unicode_len() > 0 {
                sp.model_path = Some(p.clone());
            }
        },
        None => {},
    }
    match &patch.language {
        Some(l) => {
            sp.language = l.clone();
        },
        None => {},
    }
    match &patch.auto_punctuate {
        Some(v) => {
            sp.auto_punctuate = *v;
        },
        None => {},
    }
    match &patch.translate_to_english {
        Some(v) => {
            sp.translate_to_english = *v;
        },
        None => {},
    }
    match &patch.context_formatting {
        Some(v) => {
            sp.context_formatting = *v;
        },
        None => {},
    }
    match &patch.segment_duration {
        Some(v) => {
            sp.segment_duration = *v;
        },
        None => {},
    }
    match &patch.save_transcription {
        Some(v) => {
            sp.save_transcription = *v;
        },
        None => {},
    }
    match &patch.output_format {
        Some(v) => {
            sp.output_format = v.clone();
        },
        None => {},
    }
    match &patch.buffer_size {
        Some(v) => {
            sp.buffer_size = *v;
        },
        None => {},
    }
}

fn apply_voice(vc: &mut VoiceCommandConfig, patch: &SettingsPatch)
    ensures
        final(vc).enabled == (match patch.vc_enabled {
            Some(v) => v,
            None => old(vc).enabled,
        }),
        final(vc).command_prefix == (match patch.vc_command_prefix {
            Some(p) => Some(p),
            None => old(vc).command_prefix,
        }),
        final(vc).require_prefix == (match patch.vc_require_prefix {
            Some(v) => v,
            None => old(vc).require_prefix,
        }),
        final(vc).sensitivity == (match patch.vc_sensitivity {
            Some(v) => v,
            None => old(vc).sensitivity,
        }),
        final(vc).custom_commands == old(vc).custom_commands,
{
    match &patch.vc_enabled {
        Some(v) => {
            vc.enabled = *v;
        },
        None => {},
    }
    match &patch.vc_command_prefix {
        Some(p) => {
            vc.command_prefix = Some(p.clone());
        },
        None => {},
    }
    match &patch.vc_require_prefix {
        Some(v) => {
            vc.require_prefix = *v;
        },
        None => {},
    }
    match &patch.vc_sensitivity {
        Some(v) => {
            vc.sensitivity = *v;
        },
        None => {},
    }
}

/// Applies the overrides of a settings file to a configuration: a field is
/// replaced exactly when the patch holds a value for it, and an empty device
/// or model path is ignored.
#[verifier::rlimit(100)]
pub fn apply_settings(config: &mut Config, patch: &SettingsPatch)
    ensures
        final(config).version == old(config).version,
        final(config).general.theme == (match patch.theme {
            Some(t) => t,
            None => old(config).general.theme,
        }),
        final(config).general.auto_start == (match patch.auto_start {
            Some(v) => v,
            None => old(config).general.auto_start,
        }),
        final(config).general.minimize_to_tray == (match patch.minimize_to_tray {
            Some(v) => v,
            None => old(config).general.minimize_to_tray,
        }),
        final(config).audio.input_device == (match patch.input_device {
            Some(d) => if d@.len() > 0 {
                Some(d)
            } else {
                old(config).audio.input_device
            },
            None => old(config).audio.input_device,
        }),
        final(config).audio.input_volume == (match patch.input_volume {
            Some(v) => v,
            None => old(config).audio.input_volume,
        }),
        final(config).audio.speech.model_size == (match patch.model_size {
            Some(m) => m,
            None => old(config).audio.speech.model_size,
        }),
        final(config).audio.speech.model_path == (match patch.model_path {
            Some(p) => if p@.len() > 0 {
                Some(p)
            } else {
                old(config).audio.speech.model_path
            },
            None => old(config).audio.speech.model_path,
        }),
        final(config).audio.speech.language == (match patch.language {
            Some(l) => l,
            None => old(config).audio.speech.language,
        }),
        final(config).audio.speech.auto_punctuate == (match patch.auto_punctuate {
            Some(v) => v,
            None => old(config).audio.speech.auto_punctuate,
        }),
        final(config).audio.speech.translate_to_english == (match patch.translate_to_english {
            Some(v) => v,
            None => old(config).audio.speech.translate_to_english,
        }),
        final(config).audio.speech.context_formatting == (match patch.context_formatting {
            Some(v) => v,
            None => old(config).audio.speech.context_formatting,
        }),
        final(config).audio.speech.segment_duration == (match patch.segment_duration {
            Some(v) => v,
            None => old(config).audio.speech.segment_duration,
        }),
        final(config).audio.speech.save_transcription == (match patch.save_transcription {
            Some(v) => v,
            None => old(config).audio.speech.save_transcription,
        }),
        final(config).audio.speech.output_format == (match patch.output_format {
            Some(v) => v,
            None => old(config).audio.speech.output_format,
        }),
        final(config).audio.speech.buffer_size == (match patch.buffer_size {
            Some(v) => v,
            None => old(config).audio.speech.buffer_size,
        }),
        final(config).audio.voice_commands.enabled == (match patch.vc_enabled {
            Some(v) => v,
            None => old(config).audio.voice_commands.enabled,
        }),
        final(config).audio.voice_commands.command_prefix == (match patch.vc_command_prefix {
            Some(p) => Some(p),
            None => old(config).audio.voice_commands.command_prefix,
        }),
        final(config).audio.voice_commands.require_prefix == (match patch.vc_require_prefix {
            Some(v) => v,
            None => old(config).audio.voice_commands.require_prefix,
        }),
        final(config).audio.voice_commands.sensitivity == (match patch.vc_sensitivity {
            Some(v) => v,
            None => old(config).audio.voice_commands.sensitivity,
        }),
        final(config).audio.voice_commands.custom_commands == old(
            config,
        ).audio.voice_commands.custom_commands,
{
    apply_general(&mut config.general, patch);
    match &patch.input_device {
        Some(d) => {
            if d.as_str().unicode_len() > 0 {
                config.audio.input_device = Some(d.clone());
            }
        },
        None => {},
    }
    match &patch.input_volume {
        Some(v) => {
            config.audio.input_volume = *v;
        },
        None => {},
    }
    apply_speech(&mut config.audio.speech, patch);
    apply_voice(&mut config.audio.voice_commands, patch);
}

/// Copies a model size; the copy is equal to the original.
pub fn clone_model_size(m: &WhisperModelSize) -> (r: WhisperModelSize)
    ensures
        r == *m,
{
    match m {
        WhisperModelSize::Tiny => WhisperModelSize::Tiny,
        WhisperModelSize::Base => WhisperModelSize::Base,
        WhisperModelSize::Small => WhisperModelSize::Small,
        WhisperModelSize::Medium => WhisperModelSize::Medium,
        WhisperModelSize::Large => WhisperModelSize::Large,
    }
}

} // verus!
