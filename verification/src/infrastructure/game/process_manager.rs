//! The configuration of the game process that the manager launches.
use vstd::prelude::*;
use std::path::PathBuf;

verus! {

/// A game: its name and the path of its executable.
#[derive(Debug)]
pub struct GameConfig {
    pub name: String,
    pub exe_path: PathBuf,
}

/// Manages the lifecycle of a Unity game process.
pub struct GameProcessManager {
    config: GameConfig,
}

impl GameProcessManager {
    /// A manager for the game `config`.
    pub fn new(config: GameConfig) -> (m: Self)
        ensures
            m.config_spec() == config,
    {
        GameProcessManager { config }
    }

    /// The managed game.
    pub closed spec fn config_spec(&self) -> GameConfig {
        self.config
    }

    /// The managed game.
    pub fn config(&self) -> (c: &GameConfig)
        ensures
            *c == self.config_spec(),
    {
        &self.config
    }
}

} // verus!
