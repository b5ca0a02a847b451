//! The configuration of the shell.

use std::collections::HashMap;
use vstd::prelude::*;

verus! {

/// What the shell is configured with.
#[derive(Debug, Clone)]
pub struct Config {
    /// A mapping of the alias name to what the alias will execute.
    pub aliases: HashMap<String, String>,
}

impl Default for Config {
    /// The configuration that defines no alias.
    fn default() -> (config: Self)
        ensures
            config.aliases@ == Map::<String, String>::empty(),
    {
        Self { aliases: HashMap::new() }
    }
}

} // verus!
