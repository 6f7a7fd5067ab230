//! The track-start flow: a cached file skips resolving and downloading, and
//! any failure aborts the start.

use m163_core::player::{download_done_tip, download_started_tip, error_tip, start_next, StartStep};
use m163_core::ui::tip::Type;

#[test]
fn start_flow_happy_paths() {
    // Uncached: lyric, cache check, resolve, download, load, announce.
    let mut s = StartStep::FetchLyric;
    s = start_next(s, true, false);
    assert_eq!(s, StartStep::CheckCache);
    s = start_next(s, true, false);
    assert_eq!(s, StartStep::ResolveUrl);
    s = start_next(s, true, false);
    assert_eq!(s, StartStep::Download);
    s = start_next(s, true, false);
    assert_eq!(s, StartStep::LoadFile);
    s = start_next(s, true, false);
    assert_eq!(s, StartStep::Announce);

    // Cached: the resolve and download steps are skipped.
    let s = start_next(StartStep::CheckCache, true, true);
    assert_eq!(s, StartStep::LoadFile);
}

#[test]
fn start_flow_failures_abort() {
    assert_eq!(start_next(StartStep::FetchLyric, false, false), StartStep::Abort);
    assert_eq!(start_next(StartStep::ResolveUrl, false, false), StartStep::Abort);
    assert_eq!(start_next(StartStep::Download, false, false), StartStep::Abort);
    assert_eq!(start_next(StartStep::LoadFile, false, false), StartStep::Abort);
    assert_eq!(start_next(StartStep::Abort, true, true), StartStep::Abort);
}

#[test]
fn flow_tips() {
    let t = error_tip("lyric", "offline");
    assert_eq!(t.msg, "[error]lyric: offline");
    assert!(matches!(t.typ, Type::normal(3000)));
    assert_eq!(download_started_tip().msg, "start down");
    assert_eq!(download_done_tip().msg, "down ok");
}
