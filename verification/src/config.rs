//! The configuration: the commands that the user has set up, and where
//! the explorer keeps its data.

use crate::commands::Commands;
use vstd::prelude::*;

verus! {

/// The configuration as the configuration file gives it.
#[derive(Debug, PartialEq, Eq)]
pub struct Config {
    pub commands: Option<Commands>,
    pub data_dir: Option<String>,
}

impl Config {
    /// The configuration with the data directory filled in: where the
    /// file named none, it is `default_dir`.
    pub fn with_data_dir(self, default_dir: String) -> (config: Config)
        ensures
            config.commands == self.commands,
            config.data_dir is Some,
            config.data_dir.unwrap()@ == (match self.data_dir {
                Some(dir) => dir@,
                None => default_dir@,
            }),
    {
        match self.data_dir {
            Some(dir) => Config { commands: self.commands, data_dir: Some(dir) },
            None => Config { commands: self.commands, data_dir: Some(default_dir) },
        }
    }
}

} // verus!
