//! The configuration surface: the mirror template and download
//! settings, their defaults, validation, and the merge with
//! command-line overrides.

use vstd::prelude::*;
use crate::error::ConfigError;
use crate::text::{contains_seq, contains_str, has_prefix, starts_with_str};

verus! {

/// The full configuration of a run.
#[derive(Debug, Clone)]
pub struct Config {
    pub mirror: MirrorConfig,
    pub download: DownloadConfig,
}

/// Where archives are fetched from: a URL template holding the
/// literal token `{id}`.
#[derive(Debug, Clone)]
pub struct MirrorConfig {
    pub url: String,
}

/// How downloads behave: whether existing files are skipped, and how
/// many run at once.
#[derive(Debug, Clone, Copy)]
pub struct DownloadConfig {
    pub skip_existing: bool,
    pub concurrent: u8,
}

impl Default for Config {
    /// The built-in defaults: the stock mirror, no skipping, one
    /// download at a time.
    fn default() -> (c: Config)
        ensures
            c.mirror.url@ == "https://api.nerinyan.moe/d/{id}"@,
            c.download.skip_existing == false,
            c.download.concurrent == 1,
    {
        Config {
            mirror: MirrorConfig { url: String::from_str("https://api.nerinyan.moe/d/{id}") },
            download: DownloadConfig { skip_existing: false, concurrent: 1 },
        }
    }
}

/// What validation returns for a mirror template and concurrency
/// level: the template must hold the `{id}` token and start with
/// `http://` or `https://`, and the level must be at least one.
pub open spec fn spec_validate(url: Seq<char>, concurrent: u8) -> Result<(), ConfigError> {
    if !contains_seq(url, "{id}"@) {
        Err(ConfigError::MissingIdToken)
    } else if !has_prefix(url, "http://"@) && !has_prefix(url, "https://"@) {
        Err(ConfigError::BadScheme)
    } else if concurrent == 0 {
        Err(ConfigError::ZeroConcurrency)
    } else {
        Ok(())
    }
}

impl Config {
    /// Accepts the configuration or reports the first broken rule.
    pub fn validate(&self) -> (r: Result<(), ConfigError>)
        ensures
            r == spec_validate(self.mirror.url@, self.download.concurrent),
    {
        if !contains_str(self.mirror.url.as_str(), "{id}") {
            return Err(ConfigError::MissingIdToken);
        }
        if !starts_with_str(self.mirror.url.as_str(), "http://") && !starts_with_str(
            self.mirror.url.as_str(),
            "https://",
        ) {
            return Err(ConfigError::BadScheme);
        }
        if self.download.concurrent == 0 {
            return Err(ConfigError::ZeroConcurrency);
        }
        Ok(())
    }

    /// Whether the configured concurrency is high enough to warn the
    /// operator about.
    pub fn needs_concurrency_warning(&self) -> (r: bool)
        ensures
            r == (self.download.concurrent > 50),
    {
        self.download.concurrent > 50
    }

    /// Overlays command-line choices on the configuration: a mirror
    /// override replaces the template, and the skip flag only ever
    /// turns skipping on.
    pub fn merge_with_cli(self, mirror: Option<String>, skip_existing: bool) -> (r: Config)
        ensures
            (match mirror {
                Some(m) => r.mirror.url == m,
                None => r.mirror.url == self.mirror.url,
            }),
            r.download.skip_existing == (self.download.skip_existing || skip_existing),
            r.download.concurrent == self.download.concurrent,
    {
        let mut merged = self;
        if let Some(mirror_url) = mirror {
            merged.mirror.url = mirror_url;
        }
        if skip_existing {
            merged.download.skip_existing = true;
        }
        merged
    }
}

} // verus!
