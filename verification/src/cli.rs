//! The arguments of the command line, and the places that they default
//! to.

use crate::path::FsPath;
use vstd::prelude::*;
use vstd::string::StringSliceAdditionalSpecFns;

verus! {

/// The arguments of the command line.
#[derive(Debug, PartialEq, Eq)]
pub struct CliArgs {
    /// The path of the configuration file.
    pub config_path: Option<FsPath>,
}

/// The directory of the explorer's own files below the home directory
/// `home`.
pub fn get_fe_dir(home: &FsPath) -> (dir: FsPath)
    ensures
        dir@ == home@.descend(".config/fe".spec_bytes()),
{
    home.descend(".config/fe".as_bytes())
}

/// The arguments with the path of the configuration file filled in:
/// where none was given, it is `config.toml` in the explorer's own
/// directory below `home`.
pub fn parse_args(args: CliArgs, home: &FsPath) -> (parsed: CliArgs)
    ensures
        parsed.config_path is Some,
        parsed.config_path.unwrap()@ == (match args.config_path {
            Some(path) => path@,
            None => home@.descend(".config/fe".spec_bytes()).child("config.toml".spec_bytes()),
        }),
{
    match args.config_path {
        Some(path) => CliArgs { config_path: Some(path) },
        None => {
            let default_path = get_fe_dir(home).join("config.toml".as_bytes());
            CliArgs { config_path: Some(default_path) }
        },
    }
}

} // verus!
