//! The typed messages that cross the core's boundaries: notifications for
//! the interface, playback commands, and the small state enums they carry.

use vstd::prelude::*;

use crate::player::Lyric;
use crate::typ::{
    MaybeRecommendSong, PlayDetail, PlayItem, PlayList, Profile, RecommendPlayList, SearchResult,
};
use crate::ui::tip::Tip;

verus! {

/// Notifications the core emits towards the interface.
#[derive(Debug)]
pub enum ES {
    DataSearch(SearchResult),
    DataProfile(Profile),
    DataPlayList(PlayList),
    DataRecommendResource(RecommendPlayList),
    DataRecommendSongs(MaybeRecommendSong),
    DataPlayListDetail(PlayDetail),
    RuntimeHead(HeadMenuKey),
    Render,
    Play(Play),
    SEC,
    LoginLink(String),
    LoginState(LoginState),
    AppState(AppState),
    Tip(Tip),
}

#[derive(Debug, Clone)]
pub enum LoginState {
    Wait,
    Authing,
    Failed,
    Done,
}

#[derive(Debug, Clone)]
pub enum AppState {
    Authing,
    Authed,
    Offline,
}

#[derive(Debug, Clone)]
pub enum HeadMenuKey {
    My,
    Maybe,
    About,
}

#[derive(Debug, Clone)]
pub enum PlayMode {
    Order,
    Single,
    SingleLoop,
    Random,
}

/// Playback notifications.
#[derive(Debug, Clone)]
pub enum Play {
    State(PlayState),
    /// Elapsed playback offset, in seconds.
    Offset(u64),
    Lyric(Vec<Lyric>),
    PlayList(Vec<PlayItem>, PlayListOP),
    PlayMode(PlayMode),
}

#[derive(Debug, Clone)]
pub enum PlayListOP {
    Replace,
    Append,
}

#[derive(Debug, Clone)]
pub enum PlayState {
    /// A track started: its id and the raw lyric text that came with it.
    Play(usize, String),
    Start,
    Stop,
    Idle,
    Failed(usize),
}

/// Commands the interface sends to the playback task.
#[derive(Debug, Clone)]
pub enum PlayReq {
    Play(usize),
    Start,
    Stop,
    Login,
    WatchLogin(String, String),
    /// Seek to an absolute offset, in seconds.
    T(u64),
    /// Set the volume, in permille of full scale.
    V(u32),
}

} // verus!
