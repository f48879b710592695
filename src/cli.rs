use crate::config::Config;
use vstd::prelude::*;
use vstd::string::StringExecFns;

verus! {

/// The command line: a configuration file, command lines to run, the
/// shared settings, and the two inspection switches.
#[derive(Clone, Debug, Default, PartialEq, Eq)]
pub struct Cli {
    pub file: Option<String>,
    pub commands: Vec<String>,
    pub config: Config,
    pub command_check: bool,
    pub command_print_options: bool,
}

/// The file read when none is named and no command line is given.
pub const DEFAULT_CONFIG_FILE: &'static str = "run.toml";

impl Cli {
    /// The configuration file to load: the one named, else the default one
    /// unless command lines were given.
    pub fn config_file(&self) -> (r: Option<String>)
        ensures
            self.file matches Some(f) ==> r == Some(f),
            self.file is None && self.commands@.len() == 0 ==> (r matches Some(f) && f@ == DEFAULT_CONFIG_FILE@),
            self.file is None && self.commands@.len() > 0 ==> r is None,
    {
        match &self.file {
            Some(f) => Some(f.clone()),
            None => if self.commands.len() == 0 {
                Some(String::from_str(DEFAULT_CONFIG_FILE))
            } else {
                None
            },
        }
    }
}

} // verus!
