//! The decisions of the on-disk dataset cache (airports, runways,
//! airspace): reuse a fresh copy, else download, and when the download
//! fails fall back to a stale copy rather than losing the dataset. The
//! caller performs each action (create the directory, stat, download,
//! write, check existence) and hands back what happened.

use vstd::prelude::*;

verus! {

/// What the cache is waiting for.
#[derive(Debug, PartialEq, Eq)]
pub enum CacheStage {
    /// The cache directory to be created.
    AwaitDir,
    /// Whether the cached copy is younger than the maximum age.
    AwaitFreshness,
    /// The download.
    AwaitDownload,
    /// Writing the downloaded bytes.
    AwaitWrite,
    /// Whether a (stale) cached copy exists, the download having failed
    /// with this error.
    AwaitExists(String),
    /// Nothing: the outcome has been given.
    Done,
}

/// What happened when the last action was performed.
#[derive(Debug, PartialEq, Eq)]
pub enum CacheEvent {
    DirCreated(Result<(), String>),
    Freshness(bool),
    Downloaded(Result<(), String>),
    Written(Result<(), String>),
    Exists(bool),
}

/// What to do next.
#[derive(Debug, PartialEq, Eq)]
pub enum CacheAction {
    CheckFreshness,
    Download,
    WriteFile,
    CheckExists,
    /// Stop: `Ok` means the cached file's path is the answer.
    Finish(Result<(), String>),
    /// The event did not answer what the stage was waiting for.
    Ignore,
}

pub open spec fn spec_cache_step(stage: CacheStage, event: CacheEvent) -> (CacheStage, CacheAction) {
    match (stage, event) {
        (CacheStage::AwaitDir, CacheEvent::DirCreated(Err(e))) => (
            CacheStage::Done,
            CacheAction::Finish(Err(e)),
        ),
        (CacheStage::AwaitDir, CacheEvent::DirCreated(Ok(()))) => (
            CacheStage::AwaitFreshness,
            CacheAction::CheckFreshness,
        ),
        (CacheStage::AwaitFreshness, CacheEvent::Freshness(true)) => (
            CacheStage::Done,
            CacheAction::Finish(Ok(())),
        ),
        (CacheStage::AwaitFreshness, CacheEvent::Freshness(false)) => (
            CacheStage::AwaitDownload,
            CacheAction::Download,
        ),
        (CacheStage::AwaitDownload, CacheEvent::Downloaded(Ok(()))) => (
            CacheStage::AwaitWrite,
            CacheAction::WriteFile,
        ),
        (CacheStage::AwaitDownload, CacheEvent::Downloaded(Err(e))) => (
            CacheStage::AwaitExists(e),
            CacheAction::CheckExists,
        ),
        (CacheStage::AwaitWrite, CacheEvent::Written(r)) => (CacheStage::Done, CacheAction::Finish(r)),
        (CacheStage::AwaitExists(e), CacheEvent::Exists(true)) => (
            CacheStage::Done,
            CacheAction::Finish(Ok(())),
        ),
        (CacheStage::AwaitExists(e), CacheEvent::Exists(false)) => (
            CacheStage::Done,
            CacheAction::Finish(Err(e)),
        ),
        (stage, _) => (stage, CacheAction::Ignore),
    }
}

/// One step of the cache: the next stage and the next action for the
/// event that answered the current stage.
pub fn cache_step(stage: CacheStage, event: CacheEvent) -> (r: (CacheStage, CacheAction))
    ensures
        r == spec_cache_step(stage, event),
{
    match (stage, event) {
        (CacheStage::AwaitDir, CacheEvent::DirCreated(Err(e))) => (
            CacheStage::Done,
            CacheAction::Finish(Err(e)),
        ),
        (CacheStage::AwaitDir, CacheEvent::DirCreated(Ok(()))) => (
            CacheStage::AwaitFreshness,
            CacheAction::CheckFreshness,
        ),
        (CacheStage::AwaitFreshness, CacheEvent::Freshness(true)) => (
            CacheStage::Done,
            CacheAction::Finish(Ok(())),
        ),
        (CacheStage::AwaitFreshness, CacheEvent::Freshness(false)) => (
            CacheStage::AwaitDownload,
            CacheAction::Download,
        ),
        (CacheStage::AwaitDownload, CacheEvent::Downloaded(Ok(()))) => (
            CacheStage::AwaitWrite,
            CacheAction::WriteFile,
        ),
        (CacheStage::AwaitDownload, CacheEvent::Downloaded(Err(e))) => (
            CacheStage::AwaitExists(e),
            CacheAction::CheckExists,
        ),
        (CacheStage::AwaitWrite, CacheEvent::Written(r)) => (CacheStage::Done, CacheAction::Finish(r)),
        (CacheStage::AwaitExists(e), CacheEvent::Exists(true)) => (
            CacheStage::Done,
            CacheAction::Finish(Ok(())),
        ),
        (CacheStage::AwaitExists(e), CacheEvent::Exists(false)) => (
            CacheStage::Done,
            CacheAction::Finish(Err(e)),
        ),
        (stage, _) => (stage, CacheAction::Ignore),
    }
}

/// The outcome of a whole run of the cache, given what each action
/// reports: `dir` (creating the directory), `fresh`, `download`, `write`
/// and `exists` (whether a cached copy is on disk).
pub open spec fn cache_outcome(
    dir: Result<(), String>,
    fresh: bool,
    download: Result<(), String>,
    write: Result<(), String>,
    exists: bool,
) -> Result<(), String> {
    match dir {
        Err(e) => Err(e),
        Ok(()) => if fresh {
            Ok(())
        } else {
            match download {
                Ok(()) => write,
                Err(e) => if exists {
                    Ok(())
                } else {
                    Err(e)
                },
            }
        },
    }
}

/// Running the steps from the start, answering each action as the
/// arguments say, ends in `cache_outcome`: a fresh copy is reused without
/// a download, and a failed download falls back to any copy on disk,
/// reporting the download's error only when there is none.
pub proof fn lemma_cache_run(
    dir: Result<(), String>,
    fresh: bool,
    download: Result<(), String>,
    write: Result<(), String>,
    exists: bool,
)
    ensures
        ({
            let (s1, a1) = spec_cache_step(CacheStage::AwaitDir, CacheEvent::DirCreated(dir));
            let (s2, a2) = spec_cache_step(s1, CacheEvent::Freshness(fresh));
            let (s3, a3) = spec_cache_step(s2, CacheEvent::Downloaded(download));
            let (s4, a4) = match a3 {
                CacheAction::WriteFile => spec_cache_step(s3, CacheEvent::Written(write)),
                _ => spec_cache_step(s3, CacheEvent::Exists(exists)),
            };
            let outcome = if a1 is Finish {
                a1
            } else if a2 is Finish {
                a2
            } else {
                a4
            };
            outcome == CacheAction::Finish(cache_outcome(dir, fresh, download, write, exists))
        }),
{
}

} // verus!
