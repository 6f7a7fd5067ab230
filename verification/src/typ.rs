//! Typed results of the remote operations, as the server's JSON shapes them.
//! The surrounding application parses raw response bodies into these values.

use vstd::prelude::*;

verus! {

/// A response of which only the leading status code matters.
#[derive(Debug)]
pub struct Any {
    pub code: i32,
}

#[derive(Debug)]
pub struct Lyric {
    pub code: i32,
    pub lrc: LyricInner,
}

#[derive(Debug)]
pub struct LyricInner {
    pub lyric: String,
}

#[derive(Debug)]
pub struct QRLogin {
    pub code: i32,
    pub message: String,
}

#[derive(Debug)]
pub struct SearchResult {
    pub code: i32,
    pub result: SearchResultInner,
}

#[derive(Debug)]
pub struct SearchResultInner {
    pub song_count: u32,
    pub songs: Vec<PlayItem>,
}

#[derive(Debug)]
pub struct QRR {
    pub code: i32,
    pub unikey: String,
}

#[derive(Debug)]
pub struct Profile {
    pub code: i32,
    pub account: Account,
    pub profile: ProfileInner,
}

#[derive(Debug)]
pub struct Account {
    pub id: u64,
    pub user_name: String,
}

#[derive(Debug)]
pub struct ProfileInner {
    pub nickname: String,
    pub signature: Option<String>,
}

#[derive(Debug, Clone)]
pub struct PlayList {
    pub more: bool,
    pub list: Vec<PlayListItem>,
}

#[derive(Debug, Clone)]
pub struct PlayListItem {
    pub id: usize,
    pub subscribed: bool,
    pub name: String,
    pub cover_img_url: String,
    pub track_count: usize,
    pub play_count: usize,
    /// True for the "liked songs" home list.
    pub ordered: bool,
}

#[derive(Debug, Clone)]
pub struct RecommendPlayList {
    pub recommend: Vec<RecommendPlayListItem>,
}

#[derive(Debug, Clone)]
pub struct RecommendPlayListItem {
    pub id: usize,
    pub pic_url: String,
    pub name: String,
    pub play_count: usize,
}

#[derive(Debug, Clone)]
pub struct PlayDetail {
    pub playlist: PlayDetailInner,
}

#[derive(Debug, Clone)]
pub struct PlayDetailInner {
    pub id: usize,
    pub name: String,
    pub subscribed: bool,
    pub ordered: bool,
    pub cover_img_url: String,
    pub tags: Vec<String>,
    pub description: Option<String>,
    pub create_time: u64,
    pub comment_count: u32,
    pub play_count: u64,
    pub creator: PlayCreator,
    pub tracks: Vec<PlayItem>,
}

#[derive(Debug, Clone)]
pub struct PlayCreator {
    pub nickname: String,
    pub signature: String,
    pub avatar_url: String,
}

#[derive(Debug, Clone)]
pub struct PlayItem {
    pub name: String,
    pub id: usize,
    /// Track duration in milliseconds.
    pub dt: u64,
    pub art_r: Vec<Arter>,
}

#[derive(Debug)]
pub enum MusicCopyright {
    Yes,
    NO,
}

#[derive(Debug, Clone)]
pub struct Arter {
    pub id: usize,
    pub name: Option<String>,
}

#[derive(Debug)]
pub struct SongUrl {
    pub data: Vec<SongUrlItem>,
}

#[derive(Debug)]
pub struct SongUrlItem {
    pub url: String,
    pub time: usize,
}

#[derive(Debug)]
pub struct Song {
    pub data: Vec<SongItem>,
}

#[derive(Debug)]
pub struct SongItem {
    pub id: usize,
    pub name: String,
    pub artists: Vec<Arter>,
    pub duration: u64,
}

#[derive(Debug)]
pub struct MaybeRecommendSong {
    pub recommend: Vec<SongItem>,
}

} // verus!
