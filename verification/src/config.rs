//! The options of a run and their defaults.

use vstd::prelude::*;

verus! {

/// The directory that is sorted unless another is named.
pub const DEFAULT_TARGET_DIR: &'static str = ".";

/// The model that is asked unless another is named.
pub const DEFAULT_MODEL: &'static str = "gpt-oss:20b-cloud";

/// The endpoint that is asked unless another is named.
pub const DEFAULT_API_URL: &'static str = "http://localhost:11434/api/generate";

/// The number of files in one batch unless another is named.
pub const DEFAULT_BATCH_SIZE: usize = 15;

/// The options of a run.
#[derive(Debug, Clone, PartialEq, Eq)]
pub struct Config {
    /// The directory whose files are sorted.
    pub target_dir: String,
    /// The model that is asked.
    pub model: String,
    /// The address of the inference endpoint.
    pub api_url: String,
    /// The number of files that are classified in one request.
    pub batch_size: usize,
}

impl Config {
    /// Whether the options allow a run: a batch holds at least one file.
    pub open spec fn is_valid(&self) -> bool {
        self.batch_size > 0
    }

    /// Whether the options allow a run.
    pub fn validate(&self) -> (valid: bool)
        ensures
            valid == self.is_valid(),
    {
        self.batch_size > 0
    }
}

impl Default for Config {
    fn default() -> (config: Config)
        ensures
            config.target_dir@ == DEFAULT_TARGET_DIR@,
            config.model@ == DEFAULT_MODEL@,
            config.api_url@ == DEFAULT_API_URL@,
            config.batch_size == DEFAULT_BATCH_SIZE,
            config.is_valid(),
    {
        Config {
            target_dir: String::from_str(DEFAULT_TARGET_DIR),
            model: String::from_str(DEFAULT_MODEL),
            api_url: String::from_str(DEFAULT_API_URL),
            batch_size: DEFAULT_BATCH_SIZE,
        }
    }
}

} // verus!
