//! Tests for the capture engine, the transcription driver, the command
//! interpreter pipeline, the device registry and the configuration.

use bestme::capture::{AudioData, AudioEvent, CaptureCommand, CaptureManager, compute_peak,
    select_device};
use bestme::commands::VoiceCommandType;
use bestme::config::{Config, SettingsPatch, WhisperModelSize, apply_settings,
    model_size_from_name};
use bestme::device::{get_device_description, DeviceManager};
use bestme::interpreter::{VoiceCommandConfig, VoiceCommandEvent, VoiceCommandManager};
use bestme::transcribe::{TranscriptionEvent, TranscriptionManager};

fn default_config() -> Config {
    Config::default()
}

fn speech_settings_with_duration(ms: u32) -> bestme::config::SpeechSettings {
    let mut c = default_config();
    c.audio.speech.segment_duration = ms;
    c.audio.speech
}

#[test]
fn stop_on_idle_capture_engine_is_idempotent() {
    let mut engine = CaptureManager::new();
    // stopping an engine that never started succeeds and queues nothing
    assert!(engine.stop().is_ok());
    assert!(engine.stop().is_ok());
    assert_eq!(engine.take_events().len(), 0);

    // a started engine stops once; the second stop adds nothing
    assert!(engine.start().is_ok());
    assert!(engine.stop().is_ok());
    assert!(engine.stop().is_ok());
    let events = engine.take_events();
    assert_eq!(events.len(), 2);
    assert!(matches!(events[0], AudioEvent::Started));
    assert!(matches!(events[1], AudioEvent::Stopped));
}

#[test]
fn repeated_start_is_a_no_op() {
    let mut engine = CaptureManager::new();
    assert!(engine.start().is_ok());
    assert!(engine.start().is_ok());
    let events = engine.take_events();
    assert_eq!(events.len(), 1);
    assert!(matches!(events[0], AudioEvent::Started));
}

#[test]
fn capture_command_loop_follows_commands() {
    let mut engine = CaptureManager::new();
    assert!(engine.handle_command(CaptureCommand::Start));
    assert!(engine.is_active());
    assert!(engine.handle_command(CaptureCommand::SetDevice("usb mic".to_string())));
    assert!(engine.handle_command(CaptureCommand::Stop));
    assert!(!engine.is_active());
    assert!(!engine.handle_command(CaptureCommand::Exit));
    assert_eq!(engine.get_config().input_device.as_deref(), Some("usb mic"));
}

#[test]
fn frame_peak_and_events() {
    let mut engine = CaptureManager::new();
    let frame = AudioData::new(vec![-500, 300, 499, -200], 16000, 1);
    engine.on_frame(&frame);
    assert_eq!(engine.get_peak_level(), 500);
    let events = engine.take_events();
    assert_eq!(events.len(), 2);
    assert!(matches!(events[0], AudioEvent::Level(500)));
    match &events[1] {
        AudioEvent::Data(f) => assert_eq!(f.get_samples(), frame.get_samples()),
        _ => panic!("expected a data event"),
    }
    assert_eq!(compute_peak(&[0, 0]), 0);
}

#[test]
fn stereo_downmix_averages_channels() {
    let frame = AudioData::new(vec![100, 200, 300, 500], 16000, 2);
    assert_eq!(frame.to_whisper_input(16000), vec![150, 400]);
    // rounding is toward zero
    let frame = AudioData::new(vec![-3, -4], 16000, 2);
    assert_eq!(frame.to_whisper_input(16000), vec![-3]);
}

#[test]
fn resampling_halves_the_rate_exactly() {
    let frame = AudioData::new(vec![0, 1000, 2000, 4000], 32000, 1);
    assert_eq!(frame.to_whisper_input(16000), vec![0, 2000]);
}

#[test]
fn resampling_interpolates_between_samples() {
    // upsampling 2x: odd outputs sit midway between neighbours
    let frame = AudioData::new(vec![0, 1000], 8000, 1);
    assert_eq!(frame.to_whisper_input(16000), vec![0, 500, 1000, 1000]);
}

#[test]
fn device_selection_prefers_the_configured_name() {
    let names = vec!["internal".to_string(), "usb mic".to_string()];
    assert_eq!(select_device(&Some("usb mic".to_string()), &names).unwrap(), 1);
    // an unknown name falls back to the first device
    assert_eq!(select_device(&Some("bluetooth".to_string()), &names).unwrap(), 0);
    assert_eq!(select_device(&None, &names).unwrap(), 0);
    // no devices at all is the only failure
    assert!(select_device(&None, &Vec::new()).is_err());
}

#[test]
fn device_manager_registers_and_looks_up() {
    let mut dm = DeviceManager::new();
    assert!(dm.get_default_input_device().is_none());
    dm.add_device("id-1", "Internal Microphone");
    dm.add_device("id-2", "USB Microphone");
    dm.add_device("id-1", "Internal Microphone (updated)");
    let all = dm.get_input_devices();
    assert_eq!(all.len(), 2);
    assert_eq!(all[0].1, "Internal Microphone (updated)");
    assert_eq!(
        dm.get_device_name("id-2").as_deref(),
        Some("USB Microphone")
    );
    assert!(dm.get_input_device("id-3").is_none());
    // without a default, the first device is handed out
    assert_eq!(dm.get_default_input_device().unwrap().0, "id-1");
    dm.set_default_device(Some("id-2".to_string()));
    assert_eq!(dm.get_default_input_device().unwrap().0, "id-2");
}

#[test]
fn mock_device_fills_empty_registries() {
    let mut dm = DeviceManager::new();
    dm.add_mock_device_for_testing();
    assert_eq!(dm.get_default_input_device().unwrap().0, "mock-device-id");
}

#[test]
fn partial_segment_flushes_exactly_once_at_stop() {
    // segment capacity: 1000 ms at 16 kHz = 16000 samples
    let mut driver = TranscriptionManager::new(speech_settings_with_duration(1000));
    assert!(driver.start().is_ok());
    // a frame below capacity is buffered, not handed out
    assert!(driver.process_audio(&[1, 2, 3]).is_none());
    // stopping mid-segment hands the partial segment out exactly once,
    // and Stopped is not reported until its outcome comes back
    let segment = driver.stop().expect("one final segment");
    assert_eq!(segment, vec![1, 2, 3]);
    assert!(driver.stop().is_none());
    driver.accept_transcription("hello world");
    let events = driver.take_events();
    assert_eq!(events.len(), 3);
    assert!(matches!(events[0], TranscriptionEvent::Started));
    match &events[1] {
        TranscriptionEvent::Transcription(t) => assert_eq!(t, "hello world"),
        _ => panic!("expected a transcription event"),
    }
    assert!(matches!(events[2], TranscriptionEvent::Stopped));
}

#[test]
fn stop_with_empty_buffer_reports_stopped_at_once() {
    let mut driver = TranscriptionManager::new(speech_settings_with_duration(1000));
    assert!(driver.start().is_ok());
    assert!(driver.stop().is_none());
    let events = driver.take_events();
    assert_eq!(events.len(), 2);
    assert!(matches!(events[1], TranscriptionEvent::Stopped));
}

#[test]
fn full_segment_is_handed_out_and_collection_resumes() {
    // 1 ms at 16 kHz: capacity 16 samples
    let mut driver = TranscriptionManager::new(speech_settings_with_duration(1));
    assert!(driver.start().is_ok());
    let frame: Vec<i32> = (0..20).collect();
    let segment = driver.process_audio(&frame).expect("segment at capacity");
    assert_eq!(segment.len(), 20);
    // the buffer restarted empty
    assert!(driver.process_audio(&[7]).is_none());
}

#[test]
fn inference_failures_are_events_and_collection_goes_on() {
    let mut driver = TranscriptionManager::new(speech_settings_with_duration(1000));
    assert!(driver.start().is_ok());
    driver.report_inference_error("backend failed");
    assert!(driver.is_transcribing());
    let events = driver.take_events();
    assert_eq!(events.len(), 2);
    match &events[1] {
        TranscriptionEvent::Error(m) => assert_eq!(m, "backend failed"),
        _ => panic!("expected an error event"),
    }
}

#[test]
fn transcript_joins_deltas_with_single_spaces() {
    let mut driver = TranscriptionManager::new(speech_settings_with_duration(1000));
    driver.accept_transcription("hello");
    driver.accept_transcription("world");
    assert_eq!(driver.get_current_text(), "hello world");
    // an empty result means no speech, not an error
    driver.accept_transcription("   ");
    assert_eq!(driver.get_current_text(), "hello world");
    driver.clear_transcription();
    assert_eq!(driver.get_current_text(), "");
}

#[test]
fn model_sizes_parse_by_name() {
    assert_eq!(model_size_from_name("tiny").unwrap(), WhisperModelSize::Tiny);
    assert_eq!(model_size_from_name("large").unwrap(), WhisperModelSize::Large);
    assert!(model_size_from_name("huge").is_err());
    let mut speech = default_config().audio.speech;
    assert!(speech.set_model_size_from_str("MEDIUM").is_ok());
    assert_eq!(speech.model_size, WhisperModelSize::Medium);
    assert!(speech.set_model_size_from_str("enormous").is_err());
    assert_eq!(speech.model_size, WhisperModelSize::Medium);
}

#[test]
fn test_default_config() {
    let config = Config::default();
    assert_eq!(config.general.theme, "system");
    assert_eq!(config.general.auto_start, false);
    assert_eq!(config.general.minimize_to_tray, true);
    assert_eq!(config.audio.input_volume, 1000);
    assert!(config.audio.input_device.is_none());
}

#[test]
fn settings_patch_overrides_only_present_fields() {
    let mut config = Config::default();
    let patch = SettingsPatch {
        theme: Some("dark".to_string()),
        auto_start: None,
        minimize_to_tray: None,
        input_device: Some("".to_string()),
        input_volume: Some(500),
        model_size: Some(WhisperModelSize::Large),
        model_path: None,
        language: None,
        auto_punctuate: None,
        translate_to_english: None,
        context_formatting: None,
        segment_duration: Some(2000),
        save_transcription: None,
        output_format: None,
        buffer_size: None,
        vc_enabled: Some(false),
        vc_command_prefix: Some("computer".to_string()),
        vc_require_prefix: Some(true),
        vc_sensitivity: None,
    };
    apply_settings(&mut config, &patch);
    assert_eq!(config.general.theme, "dark");
    assert_eq!(config.general.auto_start, false);
    // an empty device name is ignored
    assert!(config.audio.input_device.is_none());
    assert_eq!(config.audio.input_volume, 500);
    assert_eq!(config.audio.speech.model_size, WhisperModelSize::Large);
    assert_eq!(config.audio.speech.segment_duration, 2000);
    assert_eq!(config.audio.speech.language, "auto");
    assert_eq!(config.audio.voice_commands.enabled, false);
    assert_eq!(
        config.audio.voice_commands.command_prefix.as_deref(),
        Some("computer")
    );
    assert!(config.audio.voice_commands.require_prefix);
}

#[test]
fn required_prefix_blocks_detection_for_any_input() {
    let mut config = VoiceCommandConfig::default();
    config.command_prefix = Some("computer".to_string());
    config.require_prefix = true;
    let mut manager = VoiceCommandManager::new(config);
    assert!(manager.start().is_ok());
    // without the prefix anywhere, nothing is detected, whatever the input
    assert!(manager.process_transcription("delete last word").is_empty());
    assert!(manager.process_transcription("undo").is_empty());
    assert!(manager.process_transcription("please stop now").is_empty());
    assert_eq!(manager.take_events().len(), 0);
}

#[test]
fn prefixed_delete_command_edits_the_buffer() {
    let mut config = VoiceCommandConfig::default();
    config.command_prefix = Some("computer".to_string());
    config.require_prefix = true;
    let mut manager = VoiceCommandManager::new(config);
    assert!(manager.start().is_ok());
    manager.set_current_text("this is a test sentence");
    let commands = manager.process_transcription("computer delete last word");
    assert_eq!(commands.len(), 1);
    assert!(matches!(
        commands[0].command_type,
        VoiceCommandType::Delete
    ));
    assert_eq!(manager.get_current_text(), "this is a test");
    let events = manager.take_events();
    assert_eq!(events.len(), 1);
    assert!(matches!(events[0], VoiceCommandEvent::CommandDetected(_)));
}

#[test]
fn inactive_or_disabled_manager_detects_nothing() {
    let mut manager = VoiceCommandManager::new(VoiceCommandConfig::default());
    // never started: nothing is processed
    assert!(manager.process_transcription("undo").is_empty());
    let mut config = VoiceCommandConfig::default();
    config.enabled = false;
    let mut disabled = VoiceCommandManager::new(config);
    assert!(disabled.start().is_ok());
    assert!(disabled.process_transcription("undo").is_empty());
}

#[test]
fn undo_without_history_reports_an_error_event() {
    let mut manager = VoiceCommandManager::new(VoiceCommandConfig::default());
    assert!(manager.start().is_ok());
    let commands = manager.process_transcription("undo");
    // the command is still detected (in both candidate texts), but there is
    // nothing to undo
    assert!(!commands.is_empty());
    let events = manager.take_events();
    assert!(!events.is_empty());
    assert!(events.iter().all(|e| matches!(e, VoiceCommandEvent::Error(_))));
}

#[test]
fn custom_commands_are_registered_and_detected() {
    let mut manager = VoiceCommandManager::new(VoiceCommandConfig::default());
    assert!(manager.start().is_ok());
    let custom = VoiceCommandType::Custom("lights".to_string());
    assert!(!manager.is_command_registered(&custom));
    assert!(manager
        .register_custom_command("Turn On The Lights", custom.clone())
        .is_ok());
    assert!(manager.is_command_registered(&custom));
    let commands = manager.process_transcription("please turn on the lights");
    assert!(!commands.is_empty());
    assert!(commands
        .iter()
        .any(|c| matches!(&c.command_type, VoiceCommandType::Custom(n) if n == "lights")));
}

#[test]
fn short_inputs_are_ignored() {
    let mut manager = VoiceCommandManager::new(VoiceCommandConfig::default());
    assert!(manager.start().is_ok());
    assert!(manager.process_transcription("a").is_empty());
    assert!(manager.process_transcription("  x  ").is_empty());
}

#[test]
fn stopped_command_manager_processes_nothing() {
    let mut manager = VoiceCommandManager::new(VoiceCommandConfig::default());
    assert!(manager.start().is_ok());
    assert!(manager.stop().is_ok());
    assert!(manager.stop().is_ok());
    assert!(manager.process_transcription("undo").is_empty());
}

#[test]
fn device_descriptions_mark_the_default() {
    assert_eq!(get_device_description("USB Microphone", true), "USB Microphone (Default)");
    assert_eq!(get_device_description("USB Microphone", false), "USB Microphone");
}
