use vstd::prelude::*;

verus! {

/// Programmatic configuration of the logging system. Loading it from files
/// is left to the embedding program.
#[derive(Debug, Clone)]
pub struct Config {}

impl Config {
    /// An empty configuration.
    pub fn new() -> (r: Self) {
        Config {}
    }

    /// Configuration from YAML text: not supported by this crate; always the same error.
    pub fn from_yaml(yaml: &str) -> (r: Result<Self, String>)
        ensures
            r matches Err(e) && e@ == "YAML parsing not yet implemented"@,
    {
        Err(String::from_str("YAML parsing not yet implemented"))
    }

    /// Configuration from JSON text: not supported by this crate; always the same error.
    pub fn from_json(json: &str) -> (r: Result<Self, String>)
        ensures
            r matches Err(e) && e@ == "JSON parsing not yet implemented"@,
    {
        Err(String::from_str("JSON parsing not yet implemented"))
    }
}

} // verus!
