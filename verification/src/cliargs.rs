//! The command line, as plain values.
//!
//! Argument parsing itself is presentation work and lives outside the
//! library; what arrives here is the parsed record the session dispatches
//! on.

use vstd::prelude::*;

verus! {

/// One parsed invocation.
#[derive(Debug)]
pub struct CliArgs {
    /// What ReShader should do; an interactive session when absent.
    pub subcommand: Option<SubCommand>,
    /// Use a specific installer at this path instead of downloading one.
    pub use_installer: Option<String>,
}

/// The one-shot commands.
#[derive(Debug)]
pub enum SubCommand {
    /// Install the injector, and attach it to a game when one is given.
    InstallReshade {
        /// Install the build with no addon support.
        vanilla: bool,
        /// Install this version instead of the latest.
        version: Option<String>,
        /// Attach the injector to this game directory.
        game: Option<String>,
    },
    /// Install GShade presets and shaders from local archives.
    InstallPresets {
        /// Attach them to every managed game.
        all: bool,
        /// Attach them to this one game directory.
        game: Option<String>,
        /// The local presets archive.
        presets: String,
        /// The local shaders archive.
        shaders: String,
    },
    /// Uninstall from a game directory.
    Uninstall {
        /// The game directory to uninstall from.
        game: String,
    },
}

} // verus!
