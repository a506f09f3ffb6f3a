//! The command-line surface the library validates: the raw argument
//! values, free of any argument-parsing machinery.

use vstd::prelude::*;
use crate::error::ConfigError;

verus! {

/// The arguments a run is started with.
#[derive(Debug, Clone)]
pub struct Cli {
    /// Collection URL or numeric id.
    pub collection: String,
    /// Destination directory.
    pub directory: String,
    /// Mirror template override, if given.
    pub mirror: Option<String>,
    /// Overwrite existing files without asking.
    pub yes: bool,
    /// Skip existing files without asking.
    pub skip_existing: bool,
}

impl Cli {
    /// Rejects the one inconsistent combination: auto-overwrite and
    /// skip-existing together.
    pub fn validate(&self) -> (r: Result<(), ConfigError>)
        ensures
            self.yes && self.skip_existing ==> r == Err::<(), ConfigError>(
                ConfigError::ConflictingFlags,
            ),
            !(self.yes && self.skip_existing) ==> r == Ok::<(), ConfigError>(()),
    {
        if self.yes && self.skip_existing {
            Err(ConfigError::ConflictingFlags)
        } else {
            Ok(())
        }
    }
}

} // verus!
