use flyover::cache::{cache_step, CacheAction, CacheEvent, CacheStage};

#[test]
fn fresh_copy_is_reused() {
    let (s, a) = cache_step(CacheStage::AwaitDir, CacheEvent::DirCreated(Ok(())));
    assert_eq!(a, CacheAction::CheckFreshness);
    let (s, a) = cache_step(s, CacheEvent::Freshness(true));
    assert_eq!(s, CacheStage::Done);
    assert_eq!(a, CacheAction::Finish(Ok(())));
}

#[test]
fn stale_copy_is_downloaded_and_written() {
    let (s, _) = cache_step(CacheStage::AwaitDir, CacheEvent::DirCreated(Ok(())));
    let (s, a) = cache_step(s, CacheEvent::Freshness(false));
    assert_eq!(a, CacheAction::Download);
    let (s, a) = cache_step(s, CacheEvent::Downloaded(Ok(())));
    assert_eq!(a, CacheAction::WriteFile);
    let (_, a) = cache_step(s, CacheEvent::Written(Err("could not write x".to_string())));
    assert_eq!(a, CacheAction::Finish(Err("could not write x".to_string())));
}

#[test]
fn failed_download_falls_back_to_stale_copy() {
    let (s, a) = cache_step(CacheStage::AwaitDownload, CacheEvent::Downloaded(Err("offline".to_string())));
    assert_eq!(a, CacheAction::CheckExists);
    assert_eq!(s, CacheStage::AwaitExists("offline".to_string()));
    let (_, a) = cache_step(CacheStage::AwaitExists("offline".to_string()), CacheEvent::Exists(true));
    assert_eq!(a, CacheAction::Finish(Ok(())));
    let (_, a) = cache_step(s, CacheEvent::Exists(false));
    assert_eq!(a, CacheAction::Finish(Err("offline".to_string())));
}

#[test]
fn directory_error_stops_and_stray_events_are_ignored() {
    let (s, a) = cache_step(CacheStage::AwaitDir, CacheEvent::DirCreated(Err("no dir".to_string())));
    assert_eq!(s, CacheStage::Done);
    assert_eq!(a, CacheAction::Finish(Err("no dir".to_string())));
    let (s, a) = cache_step(CacheStage::AwaitWrite, CacheEvent::Exists(true));
    assert_eq!(s, CacheStage::AwaitWrite);
    assert_eq!(a, CacheAction::Ignore);
}
