//! Settings of the engine itself.
use vstd::prelude::*;

verus! {

/// Default retention period, in days, for soft-deleted settings.
pub fn default_retention_period() -> (r: u32)
    ensures
        r == 30,
{
    30
}

/// The default of the boolean switches.
pub fn default_true() -> (r: bool)
    ensures
        r,
{
    true
}

/// Default largest setting value, in bytes: one mebibyte.
pub fn default_max_data_size() -> (r: usize)
    ensures
        r == 1024 * 1024,
{
    1024 * 1024
}

/// Configuration of the settings service.
#[derive(Debug, Clone)]
pub struct Config {
    /// Feature flags.
    pub feature_flags: Vec<String>,
    /// Default retention period for deleted settings, in days.
    pub default_retention_period: u32,
    /// Whether type identifiers are validated strictly.
    pub strict_cti_validation: bool,
    /// Whether values are validated against their type's schema.
    pub enable_schema_validation: bool,
    /// Largest setting value, in bytes.
    pub max_data_size: usize,
}

impl Default for Config {
    fn default() -> (r: Self)
        ensures
            r.feature_flags@.len() == 0,
            r.default_retention_period == 30,
            r.strict_cti_validation,
            r.enable_schema_validation,
            r.max_data_size == 1024 * 1024,
    {
        Config {
            feature_flags: Vec::new(),
            default_retention_period: default_retention_period(),
            strict_cti_validation: true,
            enable_schema_validation: true,
            max_data_size: default_max_data_size(),
        }
    }
}

} // verus!
