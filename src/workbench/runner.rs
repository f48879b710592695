use crate::workbench::config::Config;
use vstd::prelude::*;

verus! {

/// The engine for one configuration, run from the directory `cwd`.
pub struct Runner {
    pub config: Config,
    pub cwd: String,
}

impl Runner {
    pub fn new(config: Config, cwd: String) -> (r: Runner)
        ensures
            r.config == config,
            r.cwd == cwd,
    {
        Runner { config, cwd }
    }
}

} // verus!
