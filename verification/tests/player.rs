//! The playback engine: lyric parsing and lookup, play modes, failed-track
//! skipping, ticks, seeking and volume.

use m163_core::event::{PlayListOP, PlayMode, PlayState};
use m163_core::player::{get_lyric, parse_lyric, FailedSet, Player};
use m163_core::typ::PlayItem;

fn item(id: usize, secs: u64) -> PlayItem {
    PlayItem { name: format!("t{}", id), id, dt: secs * 1000, art_r: vec![] }
}

fn player_with(ids: &[usize], mode: PlayMode) -> Player {
    let mut p = Player::new(1000);
    let items: Vec<PlayItem> = ids.iter().map(|&i| item(i, 100)).collect();
    p.on_play_list(items, PlayListOP::Replace);
    p.set_play_mode(mode);
    p
}

/// The spec example: two timed lines, an untimed line dropped, and the
/// lookup of an offset inside and at the start of the timeline.
#[test]
fn lyric_parsing_example() {
    let lines = parse_lyric("[00:01.50]line one\n[01:05.00]line two\nnotes");
    assert_eq!(lines.len(), 2);
    assert_eq!(lines[0].duration, 1);
    assert_eq!(lines[0].text, "line one");
    assert_eq!(lines[1].duration, 65);
    assert_eq!(lines[1].text, "line two");
    assert_eq!(get_lyric(70, &lines), Some(1));
    assert_eq!(get_lyric(0, &lines), Some(0));
}

#[test]
fn lyric_parsing_edges() {
    assert_eq!(parse_lyric("").len(), 0);
    assert_eq!(get_lyric(10, &[]), None);
    // No closing bracket: dropped; not at position 0: dropped.
    assert_eq!(parse_lyric("[00:01 broken\n x[00:02]shifted").len(), 0);
    // Unparsable fields read as zero, the line itself is kept.
    let l = parse_lyric("[bad]text");
    assert_eq!(l.len(), 1);
    assert_eq!(l[0].duration, 0);
    assert_eq!(l[0].text, "text");
    // A minutes-only stamp, and a second field without fraction.
    let l = parse_lyric("[2]a\n[1:30]b");
    assert_eq!(l[0].duration, 120);
    assert_eq!(l[1].duration, 90);
    // Trailing newline adds nothing.
    assert_eq!(parse_lyric("[0:1]x\n").len(), 1);
}

/// Order mode from the first track: the advance sequence wraps B, C, A.
#[test]
fn play_mode_order_sequence() {
    let mut p = player_with(&[1, 2, 3], PlayMode::Order);
    p.on_play(1, "");
    let n1 = p.play_next(false).unwrap();
    assert_eq!(n1, 2);
    p.on_play(n1, "");
    let n2 = p.play_next(false).unwrap();
    assert_eq!(n2, 3);
    p.on_play(n2, "");
    let n3 = p.play_next(false).unwrap();
    assert_eq!(n3, 1);
}

/// SingleLoop replays the same track forever.
#[test]
fn play_mode_single_loop() {
    let mut p = player_with(&[1, 2, 3], PlayMode::SingleLoop);
    p.on_play(2, "");
    for _ in 0..5 {
        assert_eq!(p.play_next(false), Some(2));
    }
}

/// Single mode never auto-advances.
#[test]
fn play_mode_single_no_auto() {
    let mut p = player_with(&[1, 2, 3], PlayMode::Single);
    p.on_play(1, "");
    assert_eq!(p.play_next(false), None);
}

/// Random mode: a wrap reshuffles, and the reshuffled queue holds exactly
/// the original tracks.
#[test]
fn play_mode_random_multiset() {
    let mut p = player_with(&[1, 2, 3, 4, 5], PlayMode::Random);
    let mut ids: Vec<usize> = p.list.iter().map(|t| t.id).collect();
    ids.sort();
    assert_eq!(ids, vec![1, 2, 3, 4, 5]);
    // Stand on the last track so the advance wraps (and reshuffles).
    let last = p.list[4].id;
    p.on_play(last, "");
    let next = p.play_next(false);
    assert!(next.is_some());
    let mut ids: Vec<usize> = p.list.iter().map(|t| t.id).collect();
    ids.sort();
    assert_eq!(ids, vec![1, 2, 3, 4, 5]);
}

/// Queue A,B,C with B failed: an advance from A yields C, never B.
#[test]
fn failed_track_skipped() {
    let mut p = player_with(&[1, 2, 3], PlayMode::Order);
    p.on_play(1, "");
    let next = p.on_failed(2);
    assert_eq!(next, Some(3));
    // And an ordinary advance from A skips B too.
    assert_eq!(p.play_next(false), Some(3));
}

/// When every track failed, the advance reports nothing playable instead of
/// scanning forever.
#[test]
fn all_failed_yields_none() {
    let mut p = player_with(&[1, 2], PlayMode::Order);
    p.on_play(1, "");
    p.on_failed(1);
    let r = p.on_failed(2);
    assert_eq!(r, None);
    assert_eq!(p.play_next(false), None);
}

/// A track that plays again is forgiven.
#[test]
fn replay_clears_failure() {
    let mut p = player_with(&[1, 2], PlayMode::Order);
    p.on_failed(2);
    assert!(p.bad.contains(2));
    p.on_play(2, "");
    assert!(!p.bad.contains(2));
}

#[test]
fn failed_set_basics() {
    let mut s = FailedSet::new();
    assert!(!s.contains(7));
    s.insert(7);
    s.insert(7);
    assert!(s.contains(7));
    s.insert(9);
    s.remove(7);
    assert!(!s.contains(7));
    assert!(s.contains(9));
    s.clear();
    assert!(!s.contains(9));
}

/// Ticks advance the offset once per second while playing, announce it, and
/// advance the queue at the track's end.
#[test]
fn tick_runs_to_end() {
    let mut p = player_with(&[1, 2], PlayMode::Order);
    let items: Vec<PlayItem> = vec![item(1, 2), item(2, 2)];
    p.on_play_list(items, PlayListOP::Replace);
    p.on_play(1, "");
    p.set_state(PlayState::Start);
    let t1 = p.on_tick();
    assert_eq!(t1.offset_event, Some(1));
    assert!(!t1.ended);
    assert_eq!(t1.advance, None);
    let t2 = p.on_tick();
    assert_eq!(t2.offset_event, Some(2));
    assert!(t2.ended);
    assert_eq!(t2.advance, Some(2));
}

#[test]
fn tick_ignored_while_stopped() {
    let mut p = player_with(&[1], PlayMode::Order);
    p.on_play(1, "");
    p.set_state(PlayState::Stop);
    let t = p.on_tick();
    assert_eq!(t.offset_event, None);
    assert!(!t.ended);
}

/// Seeks clamp to the track: never below zero, never past the duration.
#[test]
fn seek_clamps() {
    let mut p = player_with(&[1], PlayMode::Order);
    let items = vec![item(1, 200)];
    p.on_play_list(items, PlayListOP::Replace);
    p.on_play(1, "");
    p.on_offset(100);
    assert_eq!(p.change_t(10), Some(110));
    assert_eq!(p.change_t(-200), Some(0));
    p.on_offset(195);
    assert_eq!(p.change_t(10), Some(200));
    let mut empty = Player::new(1000);
    assert_eq!(empty.change_t(10), None);
}

/// Volume moves in clamped steps of a tenth of full scale.
#[test]
fn volume_clamps() {
    let mut p = Player::new(1500);
    assert_eq!(p.volume, 1000);
    assert_eq!(p.volume_up(), 1000);
    assert_eq!(p.volume_down(), 900);
    p.set_volume(50);
    assert_eq!(p.volume_down(), 0);
    assert_eq!(p.volume_down(), 0);
    p.set_volume(2000);
    assert_eq!(p.volume, 1000);
}

/// Appending adds only tracks whose id is new, in order.
#[test]
fn append_deduplicates() {
    let mut p = player_with(&[1, 2], PlayMode::Order);
    p.on_play_list(vec![item(2, 100), item(3, 100), item(3, 100)], PlayListOP::Append);
    let ids: Vec<usize> = p.list.iter().map(|t| t.id).collect();
    assert_eq!(ids, vec![1, 2, 3]);
}

/// Replacing the queue forgets the session's failures.
#[test]
fn replace_clears_failures() {
    let mut p = player_with(&[1, 2], PlayMode::Order);
    p.on_failed(1);
    p.on_play_list(vec![item(1, 100)], PlayListOP::Replace);
    assert!(!p.bad.contains(1));
}

/// Playing a track broadcasts its parsed lyric and resets the offset.
#[test]
fn on_play_broadcasts_lyrics() {
    let mut p = player_with(&[5], PlayMode::Order);
    p.on_offset(42);
    let ly = p.on_play(5, "[00:03]hey");
    assert_eq!(ly.len(), 1);
    assert_eq!(ly[0].duration, 3);
    assert_eq!(ly[0].text, "hey");
    assert_eq!(p.offset, 0);
    assert_eq!(p.selected, Some(0));
    assert_eq!(p.current.as_ref().unwrap().id, 5);
}
