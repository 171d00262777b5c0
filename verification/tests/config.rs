use lds::cli::{Cli, Command};
use lds::config::{
    default_chunk_interval_ms, default_min_audio_ms, default_mode, default_socket, default_true,
    default_vad_min_silence_ms, default_vad_threshold, Config, ConfigFile,
};
use lds::streaming::StreamingConfig;
use lds::vad::Probability;

fn bare_file() -> ConfigFile {
    ConfigFile {
        model: None,
        socket: None,
        device: None,
        auto_type: None,
        log_transcript: None,
        language: None,
        initial_prompt: None,
        mode: None,
        vad_threshold: None,
        vad_min_silence_ms: None,
        chunk_interval_ms: None,
        partial_results: None,
        min_audio_ms: None,
    }
}

#[test]
fn defaults_are_as_documented() {
    assert!(default_true());
    assert_eq!(default_mode(), "batch");
    assert_eq!(default_vad_threshold().bits, 0.5f32.to_bits());
    assert_eq!(default_vad_min_silence_ms(), 500);
    assert_eq!(default_chunk_interval_ms(), 2000);
    assert_eq!(default_min_audio_ms(), 1500);
    assert_eq!(default_socket(None), "/run/user/1000/ldsd.sock");
    assert_eq!(default_socket(Some("42")), "/run/user/42/ldsd.sock");
}

#[test]
fn missing_file_gives_defaults() {
    let cfg = Config::load(None, Some("7"));
    assert_eq!(cfg.model, "");
    assert_eq!(cfg.socket, "/run/user/7/ldsd.sock");
    assert_eq!(cfg.device, "");
    assert!(cfg.auto_type);
    assert!(!cfg.log_transcript);
    assert_eq!(cfg.language, "");
    assert_eq!(cfg.initial_prompt, "");
    assert_eq!(cfg.mode, "batch");
    assert_eq!(cfg.vad_threshold.bits, 0.5f32.to_bits());
    assert_eq!(cfg.vad_min_silence_ms, 500);
    assert_eq!(cfg.chunk_interval_ms, 2000);
    assert!(cfg.partial_results);
    assert_eq!(cfg.min_audio_ms, 1500);
    assert!(!cfg.is_streaming());
}

#[test]
fn bare_file_gives_defaults() {
    let cfg = Config::load(Some(bare_file()), None);
    assert_eq!(format!("{cfg:?}"), format!("{:?}", Config::load(None, None)));
}

#[test]
fn saved_configuration_loads_back() {
    let cfg = Config::template(Some("42"));
    let file = cfg.clone().into_file();
    assert_eq!(file.model, Some("/path/to/ggml-model.bin".to_string()));
    assert_eq!(file.chunk_interval_ms, Some(2000));
    assert_eq!(format!("{:?}", Config::load(Some(file), None)), format!("{cfg:?}"));
}

#[test]
fn file_settings_win_over_defaults() {
    let file = ConfigFile {
        model: Some("m.bin".to_string()),
        socket: Some("/s".to_string()),
        device: Some("mic".to_string()),
        auto_type: Some(false),
        log_transcript: Some(true),
        language: Some("en".to_string()),
        initial_prompt: Some("p".to_string()),
        mode: Some("streaming".to_string()),
        vad_threshold: Some(Probability { bits: 0.25f32.to_bits() }),
        vad_min_silence_ms: Some(1),
        chunk_interval_ms: Some(2),
        partial_results: Some(false),
        min_audio_ms: Some(3),
    };
    let cfg = Config::load(Some(file), None);
    assert_eq!(cfg.model, "m.bin");
    assert_eq!(cfg.socket, "/s");
    assert_eq!(cfg.device, "mic");
    assert!(!cfg.auto_type);
    assert!(cfg.log_transcript);
    assert_eq!(cfg.language, "en");
    assert_eq!(cfg.initial_prompt, "p");
    assert!(cfg.is_streaming());
    assert_eq!(f32::from_bits(cfg.vad_threshold.bits), 0.25);
    assert_eq!(cfg.vad_min_silence_ms, 1);
    assert_eq!(cfg.chunk_interval_ms, 2);
    assert!(!cfg.partial_results);
    assert_eq!(cfg.min_audio_ms, 3);

    let streaming = StreamingConfig::from(&cfg);
    assert_eq!(streaming.chunk_interval_ms, 2);
    assert!(!streaming.partial_results);
    assert_eq!(streaming.language, "en");
    assert_eq!(streaming.initial_prompt, "p");
    assert_eq!(streaming.min_audio_for_vad, 16000);
    assert_eq!(streaming.silence_chunks_to_finalize, 3);
    assert_eq!(streaming.min_audio_ms, 3);
    assert_eq!(streaming.clone().language, "en");
}

#[test]
fn config_paths() {
    assert_eq!(Config::default_path(Some("/c"), None), "/c/lds/config.toml");
    assert_eq!(Config::default_path(Some("/c/"), Some("u")), "/c/lds/config.toml");
    assert_eq!(Config::default_path(Some(""), None), "lds/config.toml");
    assert_eq!(Config::default_path(None, Some("ada")), "/home/ada/.config/lds/config.toml");
    assert_eq!(Config::default_path(None, None), "/home/byte/.config/lds/config.toml");
}

#[test]
fn command_lines_name_the_file() {
    let daemon = Cli {
        config: Some("/etc/lds.toml".to_string()),
        command: Command::Daemon { model: None, socket: None, device: None },
    };
    assert_eq!(daemon.config_path(None, None), "/etc/lds.toml");
    let init = Cli {
        config: Some("/etc/lds.toml".to_string()),
        command: Command::InitConfig { output: None },
    };
    assert_eq!(init.config_path(Some("/c"), None), "/c/lds/config.toml");
    let out = Cli {
        config: None,
        command: Command::InitConfig { output: Some("o.toml".to_string()) },
    };
    assert_eq!(out.config_path(None, None), "o.toml");
}

#[test]
fn template_has_a_model_to_fill_in() {
    let cfg = Config::template(None);
    assert_eq!(cfg.model, "/path/to/ggml-model.bin");
    assert_eq!(cfg.mode, "batch");
    assert_eq!(cfg.clone().model, cfg.model);
}

#[test]
fn command_line_overrides_the_file() {
    let cfg = Config::load(Some(bare_file()), None).with_overrides(
        Some("x.bin".to_string()),
        None,
        Some("mic".to_string()),
    );
    assert_eq!(cfg.model, "x.bin");
    assert_eq!(cfg.socket, "/run/user/1000/ldsd.sock");
    assert_eq!(cfg.device, "mic");
}

#[test]
fn a_daemon_without_a_model_is_refused() {
    let cfg = Config::load(None, None);
    assert_eq!(
        cfg.refusal("/c/lds/config.toml"),
        Some(
            "No model path specified. Use --model or set 'model' in /c/lds/config.toml".to_string()
        )
    );
    assert_eq!(Config::template(None).refusal("/c"), None);
}

#[test]
fn live_settings_are_updated() {
    let mut cfg = Config::load(None, None);
    let settings = cfg.update(Some(false), Some("de".to_string()));
    assert!(!settings.auto_type);
    assert_eq!(settings.language, "de");
    assert_eq!(settings.mode, "batch");
    assert!(!cfg.auto_type);
    assert_eq!(cfg.language, "de");
    let same = cfg.update(None, None);
    assert!(!same.auto_type);
    assert_eq!(same.language, "de");
}
