//! The command line of the daemon.

use vstd::prelude::*;

use crate::config::Config;

verus! {

/// The daemon's command line.
#[derive(Debug)]
pub struct Cli {
    /// Config file path (default: `$XDG_CONFIG_HOME/lds/config.toml`).
    pub config: Option<String>,
    /// What to do.
    pub command: Command,
}

/// What the daemon is asked to do.
#[derive(Debug)]
pub enum Command {
    /// Run as a background daemon with IPC.
    Daemon {
        /// Path to whisper ggml model file (overrides config).
        model: Option<String>,
        /// Unix domain socket path for IPC (overrides config).
        socket: Option<String>,
        /// Audio capture device name (empty = auto-detect PipeWire).
        device: Option<String>,
    },
    /// Generate a template config file.
    InitConfig {
        /// Output path (default: `$XDG_CONFIG_HOME/lds/config.toml`).
        output: Option<String>,
    },
}

/// The path of the config file that a command line names.
pub open spec fn named_path(cli: Cli) -> Option<String> {
    match cli.command {
        Command::Daemon { .. } => cli.config,
        Command::InitConfig { output } => output,
    }
}

impl Cli {
    /// The config file that is read by the daemon or written as a template: the one that the
    /// command names, or the default one.
    pub fn config_path(&self, config_home: Option<&str>, user: Option<&str>) -> (path: String)
        ensures
            match self.command {
                Command::Daemon { .. } => self.config matches Some(named) ==> path@ == named@,
                Command::InitConfig { output } => output matches Some(named) ==> path@ == named@,
            },
            path@ == crate::config::text_or(
                named_path(*self),
                crate::config::config_file_of(config_home, user),
            ),
    {
        let named: &Option<String> = match &self.command {
            Command::Daemon { model: _, socket: _, device: _ } => &self.config,
            Command::InitConfig { output } => output,
        };
        match named {
            Some(path) => path.clone(),
            None => Config::default_path(config_home, user),
        }
    }
}

/// The daemon reads the file that `--config` names and a template goes where `--output` says, if they
/// are given, wherever the user's own file stands; the two do not meddle with each other.
pub proof fn law_each_command_has_its_own_path(
    config: Option<String>,
    output: Option<String>,
    model: Option<String>,
    socket: Option<String>,
    device: Option<String>,
)
    ensures
        named_path(Cli { config, command: Command::Daemon { model, socket, device } }) == config,
        named_path(Cli { config, command: Command::InitConfig { output } }) == output,
{
}

} // verus!
