//! The privacy engine.
use vstd::prelude::*;
use crate::config::NozyConfig;
use crate::error::NozyResult;

verus! {

pub struct PrivacyEngine;

impl PrivacyEngine {
    pub fn new(config: &NozyConfig) -> (r: NozyResult<Self>)
        ensures
            r is Ok,
    {
        Ok(PrivacyEngine)
    }
}

} // verus!
