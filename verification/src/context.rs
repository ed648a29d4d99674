//! The builder that holds the configuration an application context is built from.

use vstd::prelude::*;
use crate::config::Config;

verus! {

/// Holds the configuration until the application context is built.
pub struct AppContextBuilder {
    config: Config,
}

impl AppContextBuilder {
    /// The configuration held.
    pub closed spec fn spec_config(&self) -> Config {
        self.config
    }

    pub fn new(config: Config) -> (b: Self)
        ensures
            b.spec_config() == config,
    {
        Self { config }
    }

    /// The configuration held.
    pub fn config(&self) -> (c: &Config)
        ensures
            *c == self.spec_config(),
    {
        &self.config
    }

    /// Gives the configuration back.
    pub fn into_config(self) -> (c: Config)
        ensures
            c == self.spec_config(),
    {
        self.config
    }
}

} // verus!
