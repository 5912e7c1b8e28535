//! Retention of engine-generated artifacts.
//!
//! Providers that produce files write them with a `mofa_` name prefix into one
//! artifact directory, by default a subdirectory the engine owns inside the
//! system temp dir (never the shared temp dir itself). A periodic sweep
//! deletes artifacts older than the retention; only files the engine created,
//! matched by the prefix, are ever removed.

use vstd::prelude::*;
use std::time::Duration;

use crate::clock::{duration_as_nanos, duration_nanos};
use crate::text::{has_prefix, is_blank, starts_with, trim_is_empty};

verus! {

/// Name prefix of every engine-generated artifact.
pub const ARTIFACT_PREFIX: &'static str = "mofa_";

/// Name of the engine's own subdirectory of the system temp dir.
pub const ARTIFACT_SUBDIR: &'static str = "mofa_artifacts";

/// The artifact directory to use: the configured one unless it is missing or
/// blank, else `default_dir`.
pub open spec fn artifact_dir_for(configured: Option<String>, default_dir: Seq<char>) -> Seq<char> {
    match configured {
        Some(c) => if is_blank(c@) {
            default_dir
        } else {
            c@
        },
        None => default_dir,
    }
}

/// Compute [`artifact_dir_for`]; `default_dir` is the engine's subdirectory of
/// the system temp dir.
pub fn resolve_artifact_dir(configured: Option<String>, default_dir: String) -> (r: String)
    ensures
        r@ == artifact_dir_for(configured, default_dir@),
{
    match configured {
        Some(c) => {
            if trim_is_empty(c.as_str()) {
                default_dir
            } else {
                c
            }
        },
        None => default_dir,
    }
}

/// Deletes stale engine artifacts from a directory.
#[derive(Debug)]
pub struct ArtifactSweeper {
    dir: String,
    retention: Duration,
}

impl ArtifactSweeper {
    /// The swept directory.
    pub closed spec fn spec_dir(&self) -> Seq<char> {
        self.dir@
    }

    /// The retention, in nanoseconds.
    pub closed spec fn retention_nanos(&self) -> nat {
        duration_nanos(self.retention)
    }

    /// A sweeper of `dir` (the engine's default directory `default_dir` when
    /// `None`) removing artifacts at least `retention` old.
    pub fn new(dir: Option<String>, default_dir: String, retention: Duration) -> (r: Self)
        ensures
            r.spec_dir() == (match dir {
                Some(d) => d@,
                None => default_dir@,
            }),
            r.retention_nanos() == duration_nanos(retention),
    {
        let d = match dir {
            Some(d) => d,
            None => default_dir,
        };
        ArtifactSweeper { dir: d, retention }
    }

    /// The swept directory.
    pub fn dir(&self) -> (r: &str)
        ensures
            r@ == self.spec_dir(),
    {
        self.dir.as_str()
    }

    /// The retention window; artifacts at least this old are removed.
    pub fn retention(&self) -> (r: Duration)
        ensures
            duration_nanos(r) == self.retention_nanos(),
    {
        self.retention
    }

    /// Whether a directory entry is removed: its name carries the artifact
    /// prefix and its age (`None` when it could not be read) is at least the
    /// retention.
    pub fn is_stale(&self, file_name: &str, age: Option<Duration>) -> (r: bool)
        ensures
            r == (has_prefix(file_name@, ARTIFACT_PREFIX@) && match age {
                Some(a) => duration_nanos(a) >= self.retention_nanos(),
                None => false,
            }),
    {
        if !starts_with(file_name, ARTIFACT_PREFIX) {
            return false;
        }
        match age {
            Some(a) => duration_as_nanos(a) >= duration_as_nanos(self.retention),
            None => false,
        }
    }
}

} // verus!
