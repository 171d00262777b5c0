//! The daemon's configuration: its defaults, what a file and the command line change in it, and
//! what a client changes while the daemon runs.

use vstd::prelude::*;

use crate::text::same_text;
use crate::vad::Probability;

verus! {

/// The configuration of the daemon.
#[derive(Debug)]
pub struct Config {
    /// Path to the whisper ggml model file.
    pub model: String,
    /// Unix domain socket path for IPC.
    pub socket: String,
    /// Audio capture device name (empty = auto-detect PipeWire).
    pub device: String,
    /// Auto-type the transcript after transcription (best-effort).
    pub auto_type: bool,
    /// Log transcript text (false for privacy).
    pub log_transcript: bool,
    /// Language hint for whisper (empty = auto-detect).
    pub language: String,
    /// Initial prompt for whisper (improves accuracy for domain-specific terms).
    pub initial_prompt: String,
    /// Transcription mode: "batch" (record-stop-transcribe) or "streaming".
    pub mode: String,
    /// Streaming: VAD speech probability threshold.
    pub vad_threshold: Probability,
    /// Streaming: minimum silence duration (ms) to trigger segment end.
    pub vad_min_silence_ms: u32,
    /// Streaming: how often to process audio chunks (ms).
    pub chunk_interval_ms: u64,
    /// Streaming: send `partial_transcript` IPC events.
    pub partial_results: bool,
    /// Streaming: minimum audio (ms) before the first transcription pass.
    pub min_audio_ms: u64,
}

/// What a configuration file says: any of the settings.
#[derive(Debug)]
pub struct ConfigFile {
    /// See [`Config::model`].
    pub model: Option<String>,
    /// See [`Config::socket`].
    pub socket: Option<String>,
    /// See [`Config::device`].
    pub device: Option<String>,
    /// See [`Config::auto_type`].
    pub auto_type: Option<bool>,
    /// See [`Config::log_transcript`].
    pub log_transcript: Option<bool>,
    /// See [`Config::language`].
    pub language: Option<String>,
    /// See [`Config::initial_prompt`].
    pub initial_prompt: Option<String>,
    /// See [`Config::mode`].
    pub mode: Option<String>,
    /// See [`Config::vad_threshold`].
    pub vad_threshold: Option<Probability>,
    /// See [`Config::vad_min_silence_ms`].
    pub vad_min_silence_ms: Option<u32>,
    /// See [`Config::chunk_interval_ms`].
    pub chunk_interval_ms: Option<u64>,
    /// See [`Config::partial_results`].
    pub partial_results: Option<bool>,
    /// See [`Config::min_audio_ms`].
    pub min_audio_ms: Option<u64>,
}

/// A configuration with its texts as sequences of characters.
pub struct ConfigModel {
    /// See [`Config::model`].
    pub model: Seq<char>,
    /// See [`Config::socket`].
    pub socket: Seq<char>,
    /// See [`Config::device`].
    pub device: Seq<char>,
    /// See [`Config::auto_type`].
    pub auto_type: bool,
    /// See [`Config::log_transcript`].
    pub log_transcript: bool,
    /// See [`Config::language`].
    pub language: Seq<char>,
    /// See [`Config::initial_prompt`].
    pub initial_prompt: Seq<char>,
    /// See [`Config::mode`].
    pub mode: Seq<char>,
    /// See [`Config::vad_threshold`].
    pub vad_threshold: Probability,
    /// See [`Config::vad_min_silence_ms`].
    pub vad_min_silence_ms: u32,
    /// See [`Config::chunk_interval_ms`].
    pub chunk_interval_ms: u64,
    /// See [`Config::partial_results`].
    pub partial_results: bool,
    /// See [`Config::min_audio_ms`].
    pub min_audio_ms: u64,
}

impl View for Config {
    type V = ConfigModel;

    open spec fn view(&self) -> ConfigModel {
        ConfigModel {
            model: self.model@,
            socket: self.socket@,
            device: self.device@,
            auto_type: self.auto_type,
            log_transcript: self.log_transcript,
            language: self.language@,
            initial_prompt: self.initial_prompt@,
            mode: self.mode@,
            vad_threshold: self.vad_threshold,
            vad_min_silence_ms: self.vad_min_silence_ms,
            chunk_interval_ms: self.chunk_interval_ms,
            partial_results: self.partial_results,
            min_audio_ms: self.min_audio_ms,
        }
    }
}

impl Clone for Config {
    fn clone(&self) -> (copy: Config)
        ensures
            copy == *self,
    {
        Config {
            model: self.model.clone(),
            socket: self.socket.clone(),
            device: self.device.clone(),
            auto_type: self.auto_type,
            log_transcript: self.log_transcript,
            language: self.language.clone(),
            initial_prompt: self.initial_prompt.clone(),
            mode: self.mode.clone(),
            vad_threshold: self.vad_threshold,
            vad_min_silence_ms: self.vad_min_silence_ms,
            chunk_interval_ms: self.chunk_interval_ms,
            partial_results: self.partial_results,
            min_audio_ms: self.min_audio_ms,
        }
    }
}

/// The text of an optional string, or another text.
pub open spec fn text_or(text: Option<String>, other: Seq<char>) -> Seq<char> {
    match text {
        Some(text) => text@,
        None => other,
    }
}

/// A value, or another one.
pub open spec fn value_or<T>(value: Option<T>, other: T) -> T {
    match value {
        Some(value) => value,
        None => other,
    }
}

fn string_or(text: Option<String>, other: String) -> (result: String)
    ensures
        result@ == text_or(text, other@),
{
    match text {
        Some(text) => text,
        None => other,
    }
}

/// The text of an environment variable, or another text where it is not set.
pub open spec fn variable_or(variable: Option<&str>, other: Seq<char>) -> Seq<char> {
    match variable {
        Some(variable) => variable@,
        None => other,
    }
}

/// The socket that the daemon of the user `uid` listens on.
pub open spec fn socket_of(uid: Option<&str>) -> Seq<char> {
    "/run/user/"@ + variable_or(uid, "1000"@) + "/ldsd.sock"@
}

/// The default socket path, out of the environment's `UID`.
pub fn default_socket(uid: Option<&str>) -> (path: String)
    ensures
        path@ == socket_of(uid),
        path@ == "/run/user/"@ + (match uid {
            Some(uid) => uid@,
            None => "1000"@,
        }) + "/ldsd.sock"@,
{
    let mut path: String = "/run/user/".to_string();
    path.append(match uid {
        Some(uid) => uid,
        None => "1000",
    });
    path.append("/ldsd.sock");
    path
}

/// The default of the settings that are on unless they are switched off.
pub fn default_true() -> (value: bool)
    ensures
        value,
{
    true
}

/// The default transcription mode.
pub fn default_mode() -> (mode: String)
    ensures
        mode@ == "batch"@,
{
    "batch".to_string()
}

/// The default speech probability threshold: one half.
pub fn default_vad_threshold() -> (threshold: Probability)
    ensures
        threshold == crate::vad::one_half(),
        threshold.bits == 0x3f00_0000,
{
    Probability { bits: 0x3f00_0000 }
}

/// The default minimum silence, in milliseconds.
pub fn default_vad_min_silence_ms() -> (ms: u32)
    ensures
        ms == 500,
{
    500
}

/// The default time between two looks at the audio, in milliseconds.
pub fn default_chunk_interval_ms() -> (ms: u64)
    ensures
        ms == 2000,
{
    2000
}

/// The default minimum of audio before the first transcription pass, in milliseconds.
pub fn default_min_audio_ms() -> (ms: u64)
    ensures
        ms == 1500,
{
    1500
}

/// The settings of a daemon that nothing was configured for.
pub open spec fn defaults(uid: Option<&str>) -> ConfigModel {
    ConfigModel {
        model: Seq::empty(),
        socket: socket_of(uid),
        device: Seq::empty(),
        auto_type: true,
        log_transcript: false,
        language: Seq::empty(),
        initial_prompt: Seq::empty(),
        mode: "batch"@,
        vad_threshold: crate::vad::one_half(),
        vad_min_silence_ms: 500,
        chunk_interval_ms: 2000,
        partial_results: true,
        min_audio_ms: 1500,
    }
}

/// What a file says, with the defaults for what it leaves out.
pub open spec fn filled_in(file: ConfigFile, uid: Option<&str>) -> ConfigModel {
    let base = defaults(uid);
    ConfigModel {
        model: text_or(file.model, base.model),
        socket: text_or(file.socket, base.socket),
        device: text_or(file.device, base.device),
        auto_type: value_or(file.auto_type, base.auto_type),
        log_transcript: value_or(file.log_transcript, base.log_transcript),
        language: text_or(file.language, base.language),
        initial_prompt: text_or(file.initial_prompt, base.initial_prompt),
        mode: text_or(file.mode, base.mode),
        vad_threshold: value_or(file.vad_threshold, base.vad_threshold),
        vad_min_silence_ms: value_or(file.vad_min_silence_ms, base.vad_min_silence_ms),
        chunk_interval_ms: value_or(file.chunk_interval_ms, base.chunk_interval_ms),
        partial_results: value_or(file.partial_results, base.partial_results),
        min_audio_ms: value_or(file.min_audio_ms, base.min_audio_ms),
    }
}

/// The file that says all settings of a configuration.
pub open spec fn written_out(config: Config) -> ConfigFile {
    ConfigFile {
        model: Some(config.model),
        socket: Some(config.socket),
        device: Some(config.device),
        auto_type: Some(config.auto_type),
        log_transcript: Some(config.log_transcript),
        language: Some(config.language),
        initial_prompt: Some(config.initial_prompt),
        mode: Some(config.mode),
        vad_threshold: Some(config.vad_threshold),
        vad_min_silence_ms: Some(config.vad_min_silence_ms),
        chunk_interval_ms: Some(config.chunk_interval_ms),
        partial_results: Some(config.partial_results),
        min_audio_ms: Some(config.min_audio_ms),
    }
}

/// `name` below the directory `base`, as paths are joined.
pub open spec fn below(base: Seq<char>, name: Seq<char>) -> Seq<char> {
    if base.len() == 0 {
        name
    } else if base.last() == '/' {
        base + name
    } else {
        base.push('/') + name
    }
}

fn join_path(base: &str, name: &str) -> (path: String)
    ensures
        path@ == below(base@, name@),
{
    let chars: Vec<char> = crate::text::to_chars(base);
    let mut path: String = base.to_string();
    let n: usize = chars.len();
    if n > 0 && chars[n - 1] != '/' {
        path.push('/');
    }
    path.append(name);
    assert(base@.len() == 0 ==> base@ + name@ =~= name@);
    path
}

/// The directory below a user's home, as the environment's `USER` names them.
pub open spec fn home_directory(user: Option<&str>, name: Seq<char>) -> Seq<char> {
    "/home/"@ + variable_or(user, "byte"@) + name
}

/// The path of a directory below the home of a user.
pub fn below_home(user: Option<&str>, name: &str) -> (path: String)
    ensures
        path@ == home_directory(user, name@),
{
    let mut path: String = "/home/".to_string();
    path.append(match user {
        Some(user) => user,
        None => "byte",
    });
    path.append(name);
    path
}

/// The configuration file of a user, out of `XDG_CONFIG_HOME` and `USER`.
pub open spec fn config_file_of(config_home: Option<&str>, user: Option<&str>) -> Seq<char> {
    let base = variable_or(config_home, home_directory(user, "/.config"@));
    below(below(base, "lds"@), "config.toml"@)
}

/// The settings that a client may change while the daemon runs, with the mode for its display.
#[derive(Debug)]
pub struct LiveSettings {
    /// See [`Config::auto_type`].
    pub auto_type: bool,
    /// See [`Config::language`].
    pub language: String,
    /// The mode that the daemon runs in.
    pub mode: String,
}

impl Config {
    /// The settings of a daemon that nothing was configured for.
    pub fn default_for(uid: Option<&str>) -> (config: Config)
        ensures
            config@ == defaults(uid),
    {
        Config {
            model: String::new(),
            socket: default_socket(uid),
            device: String::new(),
            auto_type: default_true(),
            log_transcript: false,
            language: String::new(),
            initial_prompt: String::new(),
            mode: default_mode(),
            vad_threshold: default_vad_threshold(),
            vad_min_silence_ms: default_vad_min_silence_ms(),
            chunk_interval_ms: default_chunk_interval_ms(),
            partial_results: default_true(),
            min_audio_ms: default_min_audio_ms(),
        }
    }

    /// The configuration out of a file, if there is one, with defaults for what it leaves out.
    pub fn load(file: Option<ConfigFile>, uid: Option<&str>) -> (config: Config)
        ensures
            config@ == (match file {
                Some(file) => filled_in(file, uid),
                None => defaults(uid),
            }),
            match file {
                Some(file) => {
                    &&& config.model@ == (match file.model {
                        Some(value) => value@,
                        None => Seq::<char>::empty(),
                    })
                    &&& config.socket@ == (match file.socket {
                        Some(value) => value@,
                        None => socket_of(uid),
                    })
                    &&& config.device@ == (match file.device {
                        Some(value) => value@,
                        None => Seq::<char>::empty(),
                    })
                    &&& config.auto_type == (match file.auto_type {
                        Some(value) => value,
                        None => true,
                    })
                    &&& config.log_transcript == (match file.log_transcript {
                        Some(value) => value,
                        None => false,
                    })
                    &&& config.language@ == (match file.language {
                        Some(value) => value@,
                        None => Seq::<char>::empty(),
                    })
                    &&& config.initial_prompt@ == (match file.initial_prompt {
                        Some(value) => value@,
                        None => Seq::<char>::empty(),
                    })
                    &&& config.mode@ == (match file.mode {
                        Some(value) => value@,
                        None => "batch"@,
                    })
                    &&& config.vad_threshold == (match file.vad_threshold {
                        Some(value) => value,
                        None => (Probability { bits: 0x3f00_0000 }),
                    })
                    &&& config.vad_min_silence_ms == (match file.vad_min_silence_ms {
                        Some(value) => value,
                        None => 500u32,
                    })
                    &&& config.chunk_interval_ms == (match file.chunk_interval_ms {
                        Some(value) => value,
                        None => 2000u64,
                    })
                    &&& config.partial_results == (match file.partial_results {
                        Some(value) => value,
                        None => true,
                    })
                    &&& config.min_audio_ms == (match file.min_audio_ms {
                        Some(value) => value,
                        None => 1500u64,
                    })
                },
                None => true,
            },
    {
        let base: Config = Config::default_for(uid);
        match file {
            Some(file) => Config {
                model: string_or(file.model, base.model),
                socket: string_or(file.socket, base.socket),
                device: string_or(file.device, base.device),
                auto_type: file.auto_type.unwrap_or(base.auto_type),
                log_transcript: file.log_transcript.unwrap_or(base.log_transcript),
                language: string_or(file.language, base.language),
                initial_prompt: string_or(file.initial_prompt, base.initial_prompt),
                mode: string_or(file.mode, base.mode),
                vad_threshold: file.vad_threshold.unwrap_or(base.vad_threshold),
                vad_min_silence_ms: file.vad_min_silence_ms.unwrap_or(base.vad_min_silence_ms),
                chunk_interval_ms: file.chunk_interval_ms.unwrap_or(base.chunk_interval_ms),
                partial_results: file.partial_results.unwrap_or(base.partial_results),
                min_audio_ms: file.min_audio_ms.unwrap_or(base.min_audio_ms),
            },
            None => base,
        }
    }

    /// The default config path: `$XDG_CONFIG_HOME/lds/config.toml`.
    pub fn default_path(config_home: Option<&str>, user: Option<&str>) -> (path: String)
        ensures
            path@ == config_file_of(config_home, user),
    {
        let base: String = match config_home {
            Some(config_home) => config_home.to_string(),
            None => below_home(user, "/.config"),
        };
        let directory: String = join_path(base.as_str(), "lds");
        join_path(directory.as_str(), "config.toml")
    }

    /// The configuration that a template file shows: the defaults, with a model path to fill in.
    pub fn template(uid: Option<&str>) -> (config: Config)
        ensures
            config@ == (ConfigModel { model: "/path/to/ggml-model.bin"@, ..defaults(uid) }),
    {
        let mut config: Config = Config::default_for(uid);
        config.model = "/path/to/ggml-model.bin".to_string();
        config
    }

    /// What a file says that is saved from this configuration.
    pub fn into_file(self) -> (file: ConfigFile)
        ensures
            file == written_out(self),
    {
        ConfigFile {
            model: Some(self.model),
            socket: Some(self.socket),
            device: Some(self.device),
            auto_type: Some(self.auto_type),
            log_transcript: Some(self.log_transcript),
            language: Some(self.language),
            initial_prompt: Some(self.initial_prompt),
            mode: Some(self.mode),
            vad_threshold: Some(self.vad_threshold),
            vad_min_silence_ms: Some(self.vad_min_silence_ms),
            chunk_interval_ms: Some(self.chunk_interval_ms),
            partial_results: Some(self.partial_results),
            min_audio_ms: Some(self.min_audio_ms),
        }
    }

    /// Whether the mode is "streaming".
    pub fn is_streaming(&self) -> (result: bool)
        ensures
            result == (self.mode@ == "streaming"@),
    {
        same_text(self.mode.as_str(), "streaming")
    }

    /// The configuration with what the command line sets in place of what the file said.
    pub fn with_overrides(
        self,
        model: Option<String>,
        socket: Option<String>,
        device: Option<String>,
    ) -> (config: Config)
        ensures
            config.model@ == (match model {
                Some(model) => model@,
                None => self.model@,
            }),
            config.socket@ == (match socket {
                Some(socket) => socket@,
                None => self.socket@,
            }),
            config.device@ == (match device {
                Some(device) => device@,
                None => self.device@,
            }),
            config@ == (ConfigModel {
                model: text_or(model, self.model@),
                socket: text_or(socket, self.socket@),
                device: text_or(device, self.device@),
                ..self@
            }),
    {
        let mut config: Config = self;
        if let Some(model) = model {
            config.model = model;
        }
        if let Some(socket) = socket {
            config.socket = socket;
        }
        if let Some(device) = device {
            config.device = device;
        }
        config
    }

    /// Why the daemon cannot start, if it cannot: a configuration without a model.
    pub fn refusal(&self, path: &str) -> (reason: Option<String>)
        ensures
            match reason {
                Some(reason) => self.model@.len() == 0 && reason@
                    == "No model path specified. Use --model or set 'model' in "@ + path@,
                None => self.model@.len() > 0,
            },
    {
        if self.model.as_str().is_empty() {
            let mut reason: String =
                "No model path specified. Use --model or set 'model' in ".to_string();
            reason.append(path);
            Some(reason)
        } else {
            None
        }
    }

    /// Takes over what a client changes of the live settings, and says what they are now.
    pub fn update(&mut self, auto_type: Option<bool>, language: Option<String>) -> (settings:
        LiveSettings)
        ensures
            final(self)@ == (ConfigModel {
                auto_type: value_or(auto_type, old(self).auto_type),
                language: text_or(language, old(self).language@),
                ..old(self)@
            }),
            final(self).auto_type == (match auto_type {
                Some(auto_type) => auto_type,
                None => old(self).auto_type,
            }),
            final(self).language@ == (match language {
                Some(language) => language@,
                None => old(self).language@,
            }),
            settings.auto_type == final(self).auto_type,
            settings.language@ == final(self).language@,
            settings.mode@ == "batch"@,
    {
        if let Some(auto_type) = auto_type {
            self.auto_type = auto_type;
        }
        if let Some(language) = language {
            self.language = language;
        }
        LiveSettings {
            auto_type: self.auto_type,
            language: self.language.clone(),
            mode: "batch".to_string(),
        }
    }
}

/// A file that says nothing gives the defaults, as if there were none.
pub proof fn law_empty_file_gives_defaults(file: ConfigFile, uid: Option<&str>)
    requires
        file.model is None,
        file.socket is None,
        file.device is None,
        file.auto_type is None,
        file.log_transcript is None,
        file.language is None,
        file.initial_prompt is None,
        file.mode is None,
        file.vad_threshold is None,
        file.vad_min_silence_ms is None,
        file.chunk_interval_ms is None,
        file.partial_results is None,
        file.min_audio_ms is None,
    ensures
        filled_in(file, uid) == defaults(uid),
{
}

/// A configuration that is saved to a file and loaded from it is the same, whoever loads it.
pub proof fn law_saved_config_loads_back(config: Config, uid: Option<&str>)
    ensures
        filled_in(written_out(config), uid) == config@,
{
}

/// Each setting by itself: whatever a file says or leaves out of the others, the loaded value is the
/// one that the file gives, and the default only where it gives none.
pub proof fn law_each_setting_is_loaded_by_itself(file: ConfigFile, uid: Option<&str>)
    ensures
        filled_in(file, uid).model == (match file.model {
            Some(value) => value@,
            None => Seq::<char>::empty(),
        }),
        filled_in(file, uid).socket == (match file.socket {
            Some(value) => value@,
            None => "/run/user/"@ + (match uid {
            Some(uid) => uid@,
            None => "1000"@,
        }) + "/ldsd.sock"@,
        }),
        filled_in(file, uid).device == (match file.device {
            Some(value) => value@,
            None => Seq::<char>::empty(),
        }),
        filled_in(file, uid).auto_type == (match file.auto_type {
            Some(value) => value,
            None => true,
        }),
        filled_in(file, uid).log_transcript == (match file.log_transcript {
            Some(value) => value,
            None => false,
        }),
        filled_in(file, uid).language == (match file.language {
            Some(value) => value@,
            None => Seq::<char>::empty(),
        }),
        filled_in(file, uid).initial_prompt == (match file.initial_prompt {
            Some(value) => value@,
            None => Seq::<char>::empty(),
        }),
        filled_in(file, uid).mode == (match file.mode {
            Some(value) => value@,
            None => "batch"@,
        }),
        filled_in(file, uid).vad_threshold == (match file.vad_threshold {
            Some(value) => value,
            None => (Probability { bits: 0x3f00_0000 }),
        }),
        filled_in(file, uid).vad_min_silence_ms == (match file.vad_min_silence_ms {
            Some(value) => value,
            None => 500u32,
        }),
        filled_in(file, uid).chunk_interval_ms == (match file.chunk_interval_ms {
            Some(value) => value,
            None => 2000u64,
        }),
        filled_in(file, uid).partial_results == (match file.partial_results {
            Some(value) => value,
            None => true,
        }),
        filled_in(file, uid).min_audio_ms == (match file.min_audio_ms {
            Some(value) => value,
            None => 1500u64,
        }),
{
}

/// Two files that agree on a setting load to configurations that agree on it, whatever else they
/// say.
pub proof fn law_files_that_agree_load_alike(a: ConfigFile, b: ConfigFile, uid: Option<&str>)
    ensures
        crate::ipc::optional_text(a.model) == crate::ipc::optional_text(b.model) ==> filled_in(
            a,
            uid,
        ).model == filled_in(b, uid).model,
        crate::ipc::optional_text(a.socket) == crate::ipc::optional_text(b.socket) ==> filled_in(
            a,
            uid,
        ).socket == filled_in(b, uid).socket,
        crate::ipc::optional_text(a.device) == crate::ipc::optional_text(b.device) ==> filled_in(
            a,
            uid,
        ).device == filled_in(b, uid).device,
        a.auto_type == b.auto_type ==> filled_in(a, uid).auto_type == filled_in(
            b,
            uid,
        ).auto_type,
        a.log_transcript == b.log_transcript ==> filled_in(a, uid).log_transcript == filled_in(
            b,
            uid,
        ).log_transcript,
        crate::ipc::optional_text(a.language) == crate::ipc::optional_text(b.language) ==> filled_in(
            a,
            uid,
        ).language == filled_in(b, uid).language,
        crate::ipc::optional_text(a.initial_prompt) == crate::ipc::optional_text(b.initial_prompt) ==> filled_in(
            a,
            uid,
        ).initial_prompt == filled_in(b, uid).initial_prompt,
        crate::ipc::optional_text(a.mode) == crate::ipc::optional_text(b.mode) ==> filled_in(
            a,
            uid,
        ).mode == filled_in(b, uid).mode,
        a.vad_threshold == b.vad_threshold ==> filled_in(a, uid).vad_threshold == filled_in(
            b,
            uid,
        ).vad_threshold,
        a.vad_min_silence_ms == b.vad_min_silence_ms ==> filled_in(a, uid).vad_min_silence_ms == filled_in(
            b,
            uid,
        ).vad_min_silence_ms,
        a.chunk_interval_ms == b.chunk_interval_ms ==> filled_in(a, uid).chunk_interval_ms == filled_in(
            b,
            uid,
        ).chunk_interval_ms,
        a.partial_results == b.partial_results ==> filled_in(a, uid).partial_results == filled_in(
            b,
            uid,
        ).partial_results,
        a.min_audio_ms == b.min_audio_ms ==> filled_in(a, uid).min_audio_ms == filled_in(
            b,
            uid,
        ).min_audio_ms,
{
}

/// The defaults, each by itself; only that of the socket depends on the user.
pub proof fn law_defaults_are_as_documented(uid: Option<&str>)
    ensures
        defaults(uid).model == Seq::<char>::empty(),
        defaults(uid).socket == "/run/user/"@ + (match uid {
            Some(uid) => uid@,
            None => "1000"@,
        }) + "/ldsd.sock"@,
        defaults(uid).device == Seq::<char>::empty(),
        defaults(uid).auto_type == true,
        defaults(uid).log_transcript == false,
        defaults(uid).language == Seq::<char>::empty(),
        defaults(uid).initial_prompt == Seq::<char>::empty(),
        defaults(uid).mode == "batch"@,
        defaults(uid).vad_threshold == (Probability { bits: 0x3f00_0000 }),
        defaults(uid).vad_min_silence_ms == 500u32,
        defaults(uid).chunk_interval_ms == 2000u64,
        defaults(uid).partial_results == true,
        defaults(uid).min_audio_ms == 1500u64,
{
}

/// A configuration is known by all of its settings, each as it is.
pub proof fn law_view_shows_every_setting(config: Config)
    ensures
        config@.model == config.model@,
        config@.socket == config.socket@,
        config@.device == config.device@,
        config@.auto_type == config.auto_type,
        config@.log_transcript == config.log_transcript,
        config@.language == config.language@,
        config@.initial_prompt == config.initial_prompt@,
        config@.mode == config.mode@,
        config@.vad_threshold == config.vad_threshold,
        config@.vad_min_silence_ms == config.vad_min_silence_ms,
        config@.chunk_interval_ms == config.chunk_interval_ms,
        config@.partial_results == config.partial_results,
        config@.min_audio_ms == config.min_audio_ms,
{
}

/// A path below a directory is the directory, one slash and the name: the directory's own slash
/// where it ends in one.
pub proof fn law_paths_are_joined_by_one_slash(base: Seq<char>, name: Seq<char>)
    requires
        base.len() > 0,
        base[base.len() - 1] != '/',
    ensures
        below(base, name) == base + seq!['/'] + name,
        below(base.push('/'), name) == below(base, name),
        below(Seq::<char>::empty(), name) == name,
{
    assert(base.push('/') + name =~= base + seq!['/'] + name);
    assert(base.push('/').last() == '/');
}

/// The configuration file stands below the configured directory where there is one, whoever the user
/// is, and else below the user's home.
pub proof fn law_config_file_is_found(config_home: &str, user: Option<&str>, other: Option<&str>)
    requires
        config_home@.len() > 0,
        config_home@[config_home@.len() - 1] != '/',
    ensures
        config_file_of(Some(config_home), user) == config_home@ + "/lds/config.toml"@,
        config_file_of(Some(config_home), user) == config_file_of(Some(config_home), other),
        config_file_of(None, user) == "/home/"@ + (match user {
            Some(user) => user@,
            None => "byte"@,
        }) + "/.config/lds/config.toml"@,
{
    reveal_strlit("lds");
    reveal_strlit("config.toml");
    reveal_strlit("/lds/config.toml");
    reveal_strlit("/.config/lds/config.toml");
    reveal_strlit("/.config");
    let home = home_directory(user, "/.config"@);
    assert(home.len() > 0 && home[home.len() - 1] == 'g');
    let there = below(config_home@, "lds"@);
    assert(there[there.len() - 1] == 's');
    assert(below(there, "config.toml"@) =~= config_home@ + "/lds/config.toml"@);
    let own = below(home, "lds"@);
    assert(own[own.len() - 1] == 's');
    assert(below(own, "config.toml"@) =~= "/home/"@ + (match user {
        Some(user) => user@,
        None => "byte"@,
    }) + "/.config/lds/config.toml"@);
}

/// A directory that ends in a slash is not given another, the root among them; and the configuration
/// file is `config.toml` below `lds` below the configured directory, whatever that is.
pub proof fn law_directory_keeps_its_own_slash(base: Seq<char>, name: Seq<char>, home: &str)
    ensures
        below(base.push('/'), name) == base + seq!['/'] + name,
        config_file_of(Some(home), None) == below(below(home@, "lds"@), "config.toml"@),
{
    assert(base.push('/').last() == '/');
    assert(base.push('/') + name =~= base + seq!['/'] + name);
}

/// A configuration that is saved writes out every setting, one that has its default value too.
pub proof fn law_saved_file_leaves_nothing_out(config: Config)
    ensures
        written_out(config).model == Some(config.model),
        written_out(config).socket == Some(config.socket),
        written_out(config).device == Some(config.device),
        written_out(config).auto_type == Some(config.auto_type),
        written_out(config).log_transcript == Some(config.log_transcript),
        written_out(config).language == Some(config.language),
        written_out(config).initial_prompt == Some(config.initial_prompt),
        written_out(config).mode == Some(config.mode),
        written_out(config).vad_threshold == Some(config.vad_threshold),
        written_out(config).vad_min_silence_ms == Some(config.vad_min_silence_ms),
        written_out(config).chunk_interval_ms == Some(config.chunk_interval_ms),
        written_out(config).partial_results == Some(config.partial_results),
        written_out(config).min_audio_ms == Some(config.min_audio_ms),
{
}

} // verus!
