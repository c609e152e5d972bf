//! The persisted configuration: the append-only list of chain
//! configuration records a registry is rebuilt from at process start.

use vstd::prelude::*;
use crate::registry::{replay, ChainRegistry};
use crate::types::{Currency, EvmConfig, EvmConfigV, RegisterError};

verus! {

/// The record list as persisted: one configuration per successful
/// registration, in registration order.
pub struct Config {
    pub config: Vec<EvmConfig>,
}

impl Config {
    /// Wraps a record list.
    pub fn new(config: Vec<EvmConfig>) -> (r: Config)
        ensures
            r.config@ == config@,
    {
        Config { config }
    }

    /// The records, in order.
    pub fn into_records(self) -> (r: Vec<EvmConfig>)
        ensures
            r@ == self.config@,
    {
        self.config
    }

    /// Rebuilds the registry by replaying the records; fails as the first
    /// refused registration would.
    pub fn into_registry(self) -> (r: Result<ChainRegistry, RegisterError>)
        ensures
            match r {
                Ok(reg) => reg.wf() && replay(self.config@.map_values(|c: EvmConfig| c@)) == Ok::<
                    _,
                    RegisterError,
                >(reg.as_map()),
                Err(e) => replay(self.config@.map_values(|c: EvmConfig| c@)) == Err::<
                    Map<Currency, EvmConfigV>,
                    RegisterError,
                >(e),
            },
    {
        ChainRegistry::from_records(self.config)
    }
}

} // verus!
