//! Wallet configuration.
use vstd::prelude::*;

verus! {

#[derive(Debug, Clone)]
pub struct NozyConfig {
    pub network: NetworkConfig,
    pub privacy: PrivacyConfig,
}

#[derive(Debug, Clone)]
pub struct NetworkConfig {
    pub network: String,
    pub default_privacy: PrivacyLevel,
}

#[derive(Debug, Clone, Copy, PartialEq, Eq, Structural)]
pub struct PrivacyConfig {
    pub enable_orchard: bool,
    pub enable_sapling: bool,
}

#[derive(Debug, Clone, Copy, PartialEq, Eq, Structural)]
pub enum PrivacyLevel {
    Maximum,
    High,
    Balanced,
}

#[derive(Debug, Clone, Copy, PartialEq, Eq, Hash, Structural)]
pub enum PrivacyMaskType {
    Random,
    FakeSpending,
    Noise,
    Custom,
}

impl NozyConfig {
    /// A mainnet configuration for the given privacy level: Orchard is
    /// enabled only at `Maximum`, Sapling at every level but `Balanced`.
    pub fn new(privacy_level: PrivacyLevel) -> (r: Self)
        ensures
            r.network.network@ == "mainnet"@,
            r.network.default_privacy == privacy_level,
            r.privacy.enable_orchard == (privacy_level == PrivacyLevel::Maximum),
            r.privacy.enable_sapling == (privacy_level != PrivacyLevel::Balanced),
    {
        NozyConfig {
            network: NetworkConfig {
                network: String::from_str("mainnet"),
                default_privacy: privacy_level,
            },
            privacy: PrivacyConfig {
                enable_orchard: privacy_level == PrivacyLevel::Maximum,
                enable_sapling: privacy_level != PrivacyLevel::Balanced,
            },
        }
    }
}

impl Default for NozyConfig {
    fn default() -> (r: Self)
        ensures
            r.network.network@ == "mainnet"@,
            r.network.default_privacy == PrivacyLevel::Maximum,
            r.privacy.enable_orchard,
            r.privacy.enable_sapling,
    {
        Self::new(PrivacyLevel::Maximum)
    }
}

} // verus!
