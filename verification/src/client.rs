//! The remote operations: for each capability the exact request (path,
//! payload, cache key), and the classification of what came back.

use vstd::prelude::*;

use crate::cache::{daily_key, daily_key_spec, Date};
use crate::codec::{hex_digit, hex_digit_char, push_char};
use crate::event::{AppState, LoginState, ES};
use crate::text::{dec_rep, u64_to_string};

verus! {

// ---------------------------------------------------------------------------
// Failures
// ---------------------------------------------------------------------------

/// The failure taxonomy of a remote operation.
#[derive(Debug)]
pub enum NCErr {
    /// An encoding step failed before anything was sent.
    Any,
    /// The server rejected the request; carries the raw response text.
    Resp(String),
    /// The client could not complete a step; carries the step and details.
    Client(String, String),
    /// Transport failure: the process is offline.
    Offline,
}

impl NCErr {
    /// The display line of the failure.
    pub fn message(&self) -> (r: String)
        ensures
            r@ == match self {
                NCErr::Any => "any error"@,
                NCErr::Resp(s) => "server respose "@ + s@,
                NCErr::Client(a, b) => "client "@ + a@ + ": "@ + b@,
                NCErr::Offline => "offline"@,
            },
    {
        match self {
            NCErr::Any => String::from_str("any error"),
            NCErr::Resp(s) => {
                let mut r = String::from_str("server respose ");
                r.append(s.as_str());
                r
            },
            NCErr::Client(a, b) => {
                let mut r = String::from_str("client ");
                r.append(a.as_str());
                r.append(": ");
                r.append(b.as_str());
                r
            },
            NCErr::Offline => String::from_str("offline"),
        }
    }
}

// ---------------------------------------------------------------------------
// The origin
// ---------------------------------------------------------------------------

pub open spec fn target_spec() -> Seq<char> {
    "https://music.163.com"@
}

/// The fixed service origin.
pub fn target() -> (r: &'static str)
    ensures
        r@ == target_spec(),
{
    "https://music.163.com"
}

fn api_path(suffix: &str) -> (r: String)
    ensures
        r@ == target_spec() + suffix@,
{
    let mut r = String::from_str(target());
    r.append(suffix);
    r
}

// ---------------------------------------------------------------------------
// JSON strings
// ---------------------------------------------------------------------------

/// How one character stands inside a JSON string: quotes and backslashes
/// escaped, control characters in their short or \u00xx forms, everything
/// else as itself.
pub open spec fn esc_char(c: char) -> Seq<char> {
    if c == '"' {
        seq!['\\', '"']
    } else if c == '\\' {
        seq!['\\', '\\']
    } else if c as nat == 8 {
        seq!['\\', 'b']
    } else if c == '\t' {
        seq!['\\', 't']
    } else if c == '\n' {
        seq!['\\', 'n']
    } else if c as nat == 12 {
        seq!['\\', 'f']
    } else if c == '\r' {
        seq!['\\', 'r']
    } else if (c as nat) < 32 {
        seq!['\\', 'u', '0', '0', hex_digit_char((c as nat) / 16), hex_digit_char((c as nat) % 16)]
    } else {
        seq![c]
    }
}

pub open spec fn json_escaped(s: Seq<char>) -> Seq<char>
    decreases s.len(),
{
    if s.len() == 0 {
        Seq::empty()
    } else {
        esc_char(s[0]) + json_escaped(s.drop_first())
    }
}

/// A JSON string literal: the escaped text in quotes.
pub open spec fn json_str(s: Seq<char>) -> Seq<char> {
    seq!['"'] + json_escaped(s) + seq!['"']
}

/// Append the escaped form of `s`.
fn append_escaped(out: &mut String, s: &str)
    ensures
        final(out)@ == old(out)@ + json_escaped(s@),
{
    let n = s.unicode_len();
    let mut i: usize = 0;
    proof {
        assert(s@.skip(0) == s@);
        assert(old(out)@ + Seq::<char>::empty() =~= old(out)@);
    }
    while i < n
        invariant
            i <= n,
            n == s@.len(),
            old(out)@ + json_escaped(s@) =~= out@ + json_escaped(s@.skip(i as int)),
        decreases n - i,
    {
        let c = s.get_char(i);
        let u = c as u32;
        proof {
            assert(s@.skip(i as int).drop_first() =~= s@.skip(i + 1));
            assert(json_escaped(s@.skip(i as int)) == esc_char(c) + json_escaped(s@.skip(i + 1)));
        }
        if c == '"' {
            push_char(out, '\\');
            push_char(out, '"');
        } else if c == '\\' {
            push_char(out, '\\');
            push_char(out, '\\');
        } else if u == 8 {
            push_char(out, '\\');
            push_char(out, 'b');
        } else if u == 9 {
            push_char(out, '\\');
            push_char(out, 't');
        } else if u == 10 {
            push_char(out, '\\');
            push_char(out, 'n');
        } else if u == 12 {
            push_char(out, '\\');
            push_char(out, 'f');
        } else if u == 13 {
            push_char(out, '\\');
            push_char(out, 'r');
        } else if u < 32 {
            push_char(out, '\\');
            push_char(out, 'u');
            push_char(out, '0');
            push_char(out, '0');
            push_char(out, hex_digit((u / 16) as u8));
            push_char(out, hex_digit((u % 16) as u8));
        } else {
            push_char(out, c);
        }
        proof {
            assert(old(out)@ + json_escaped(s@) =~= out@ + json_escaped(s@.skip(i + 1)));
        }
        i = i + 1;
    }
    proof {
        assert(s@.skip(n as int) =~= Seq::<char>::empty());
        assert(final(out)@ =~= old(out)@ + json_escaped(s@));
    }
}

/// Append a JSON string literal holding `s`.
fn append_json_str(out: &mut String, s: &str)
    ensures
        final(out)@ == old(out)@ + json_str(s@),
{
    push_char(out, '"');
    append_escaped(out, s);
    push_char(out, '"');
    proof {
        assert(final(out)@ =~= old(out)@ + json_str(s@));
    }
}

// ---------------------------------------------------------------------------
// Requests
// ---------------------------------------------------------------------------

/// One remote operation, ready to encode and send: the endpoint path, the
/// exact JSON payload, and the response's cache key when it is cacheable.
pub struct ApiRequest {
    pub path: String,
    pub payload: String,
    pub cache_key: Option<String>,
}

/// Ask for a login QR key.
pub fn qr_link_request() -> (r: ApiRequest)
    ensures
        r.path@ == target_spec() + "/weapi/login/qrcode/unikey"@,
        r.payload@ == "{\"noCheckToken\":true,\"type\":1}"@,
        r.cache_key is None,
{
    ApiRequest {
        path: api_path("/weapi/login/qrcode/unikey"),
        payload: String::from_str("{\"noCheckToken\":true,\"type\":1}"),
        cache_key: None,
    }
}

/// Poll the login state of a QR key.
pub fn qr_login_request(key: &str) -> (r: ApiRequest)
    ensures
        r.path@ == target_spec() + "/weapi/login/qrcode/client/login"@,
        r.payload@ == "{\"key\":"@ + json_str(key@) + ",\"noCheckToken\":true,\"type\":1}"@,
        r.cache_key is None,
{
    let mut payload = String::from_str("{\"key\":");
    append_json_str(&mut payload, key);
    payload.append(",\"noCheckToken\":true,\"type\":1}");
    proof {
        assert(payload@ =~= "{\"key\":"@ + json_str(key@) + ",\"noCheckToken\":true,\"type\":1}"@);
    }
    ApiRequest { path: api_path("/weapi/login/qrcode/client/login"), payload, cache_key: None }
}

/// End the session on the server.
pub fn logout_request() -> (r: ApiRequest)
    ensures
        r.path@ == target_spec() + "/weapi/logout"@,
        r.payload@ == "{}"@,
        r.cache_key is None,
{
    ApiRequest {
        path: api_path("/weapi/logout"),
        payload: String::from_str("{}"),
        cache_key: None,
    }
}

/// Fetch the account profile.
pub fn profile_request() -> (r: ApiRequest)
    ensures
        r.path@ == target_spec() + "/weapi/w/nuser/account/get"@,
        r.payload@ == "{}"@,
        r.cache_key is None,
{
    ApiRequest {
        path: api_path("/weapi/w/nuser/account/get"),
        payload: String::from_str("{}"),
        cache_key: None,
    }
}

/// Fetch the recommended playlists; cached once per calendar day.
pub fn recommend_resource_request(d: &Date) -> (r: ApiRequest)
    requires
        d.wf(),
    ensures
        r.path@ == target_spec() + "/weapi/discovery/recommend/resource"@,
        r.payload@ == "{}"@,
        match r.cache_key {
            Some(k) => k@ == daily_key_spec("recommend_resource_"@, *d),
            None => false,
        },
{
    ApiRequest {
        path: api_path("/weapi/discovery/recommend/resource"),
        payload: String::from_str("{}"),
        cache_key: Some(daily_key("recommend_resource_", d)),
    }
}

/// Fetch the recommended songs; cached once per calendar day.
pub fn recommend_songs_request(d: &Date) -> (r: ApiRequest)
    requires
        d.wf(),
    ensures
        r.path@ == target_spec() + "/weapi/v2/discovery/recommend/songs"@,
        r.payload@ == "{\"offset\":0,\"total\":true}"@,
        match r.cache_key {
            Some(k) => k@ == daily_key_spec("recommend_"@, *d),
            None => false,
        },
{
    ApiRequest {
        path: api_path("/weapi/v2/discovery/recommend/songs"),
        payload: String::from_str("{\"offset\":0,\"total\":true}"),
        cache_key: Some(daily_key("recommend_", d)),
    }
}

/// Search songs: the first ten matches.
pub fn search_request(s: &str) -> (r: ApiRequest)
    ensures
        r.path@ == target_spec() + "/weapi/cloudsearch/get/web"@,
        r.payload@ == "{\"limit\":\"10\",\"offset\":\"0\",\"s\":"@ + json_str(s@)
            + ",\"type\":\"1\"}"@,
        r.cache_key is None,
{
    let mut payload = String::from_str("{\"limit\":\"10\",\"offset\":\"0\",\"s\":");
    append_json_str(&mut payload, s);
    payload.append(",\"type\":\"1\"}");
    proof {
        assert(payload@ =~= "{\"limit\":\"10\",\"offset\":\"0\",\"s\":"@ + json_str(s@)
            + ",\"type\":\"1\"}"@);
    }
    ApiRequest { path: api_path("/weapi/cloudsearch/get/web"), payload, cache_key: None }
}

/// Fetch a track's lyric; cached per track id.
pub fn lyric_request(id: usize) -> (r: ApiRequest)
    ensures
        r.path@ == target_spec() + "/weapi/song/lyric"@,
        r.payload@ == "{\"id\":\""@ + dec_rep(id as nat) + "\",\"lv\":-1,\"tv\":-1}"@,
        match r.cache_key {
            Some(k) => k@ == dec_rep(id as nat) + ".lyric"@,
            None => false,
        },
{
    let ids = u64_to_string(id as u64);
    let mut payload = String::from_str("{\"id\":\"");
    payload.append(ids.as_str());
    payload.append("\",\"lv\":-1,\"tv\":-1}");
    let mut key = ids;
    key.append(".lyric");
    proof {
        assert(payload@ =~= "{\"id\":\""@ + dec_rep(id as nat) + "\",\"lv\":-1,\"tv\":-1}"@);
    }
    ApiRequest { path: api_path("/weapi/song/lyric"), payload, cache_key: Some(key) }
}

/// Create an own playlist with the given name.
pub fn create_play_list_request(name: &str) -> (r: ApiRequest)
    ensures
        r.path@ == target_spec() + "/weapi/playlist/create"@,
        r.payload@ == "{\"name\":"@ + json_str(name@) + "}"@,
        r.cache_key is None,
{
    let mut payload = String::from_str("{\"name\":");
    append_json_str(&mut payload, name);
    payload.append("}");
    proof {
        assert(payload@ =~= "{\"name\":"@ + json_str(name@) + "}"@);
    }
    ApiRequest { path: api_path("/weapi/playlist/create"), payload, cache_key: None }
}

/// Delete an own playlist.
pub fn delete_play_list_request(id: usize) -> (r: ApiRequest)
    ensures
        r.path@ == target_spec() + "/weapi/playlist/delete"@,
        r.payload@ == "{\"pid\":\""@ + dec_rep(id as nat) + "\"}"@,
        r.cache_key is None,
{
    let ids = u64_to_string(id as u64);
    let mut payload = String::from_str("{\"pid\":\"");
    payload.append(ids.as_str());
    payload.append("\"}");
    proof {
        assert(payload@ =~= "{\"pid\":\""@ + dec_rep(id as nat) + "\"}"@);
    }
    ApiRequest { path: api_path("/weapi/playlist/delete"), payload, cache_key: None }
}

/// The comma-separated decimal list of track ids.
pub open spec fn ids_joined(ids: Seq<usize>) -> Seq<char>
    decreases ids.len(),
{
    if ids.len() == 0 {
        Seq::empty()
    } else if ids.len() == 1 {
        dec_rep(ids[0] as nat)
    } else {
        dec_rep(ids[0] as nat) + seq![','] + ids_joined(ids.drop_first())
    }
}

/// Add tracks to or delete tracks from an own playlist.
pub fn track_request(add: bool, play_id: usize, songs: &Vec<usize>) -> (r: ApiRequest)
    ensures
        r.path@ == target_spec() + "/weapi/playlist/manipulate/tracks"@,
        r.payload@ == "{\"op\":\""@ + (if add { "add"@ } else { "del"@ }) + "\",\"pid\":\""@
            + dec_rep(play_id as nat) + "\",\"trackIds\":\"["@ + ids_joined(songs@)
            + "]\"}"@,
        r.cache_key is None,
{
    let mut payload = String::from_str("{\"op\":\"");
    if add {
        payload.append("add");
    } else {
        payload.append("del");
    }
    payload.append("\",\"pid\":\"");
    let pid = u64_to_string(play_id as u64);
    payload.append(pid.as_str());
    payload.append("\",\"trackIds\":\"[");
    let ghost mark = payload@;
    let mut i: usize = 0;
    proof {
        assert(songs@.skip(0) == songs@);
        assert(mark + Seq::<char>::empty() =~= mark);
    }
    while i < songs.len()
        invariant
            i <= songs@.len(),
            mark + ids_joined(songs@) =~= payload@ + ids_joined(songs@.skip(i as int)),
        decreases songs@.len() - i,
    {
        proof {
            assert(songs@.skip(i as int).drop_first() =~= songs@.skip(i + 1));
            assert(songs@.skip(i as int)[0] == songs@[i as int]);
        }
        let n = u64_to_string(songs[i] as u64);
        payload.append(n.as_str());
        if i + 1 < songs.len() {
            payload.append(",");
            proof {
                reveal_strlit(",");
            }
        }
        proof {
            assert(mark + ids_joined(songs@) =~= payload@ + ids_joined(songs@.skip(i + 1)));
        }
        i = i + 1;
    }
    proof {
        assert(songs@.skip(songs@.len() as int) =~= Seq::<usize>::empty());
        assert(payload@ =~= mark + ids_joined(songs@));
    }
    payload.append("]\"}");
    proof {
        assert(payload@ =~= "{\"op\":\""@ + (if add { "add"@ } else { "del"@ }) + "\",\"pid\":\""@
            + dec_rep(play_id as nat) + "\",\"trackIds\":\"["@ + ids_joined(songs@) + "]\"}"@);
    }
    ApiRequest { path: api_path("/weapi/playlist/manipulate/tracks"), payload, cache_key: None }
}

/// List the account's playlists; cached under one fixed key.
pub fn play_list_request(uid: u64, offset: usize, limit: usize) -> (r: ApiRequest)
    ensures
        r.path@ == target_spec() + "/weapi/user/playlist"@,
        r.payload@ == "{\"limit\":"@ + dec_rep(limit as nat) + ",\"offset\":"@ + dec_rep(
            offset as nat,
        ) + ",\"uid\":"@ + dec_rep(uid as nat) + "}"@,
        match r.cache_key {
            Some(k) => k@ == "play_list"@,
            None => false,
        },
{
    let mut payload = String::from_str("{\"limit\":");
    let l = u64_to_string(limit as u64);
    payload.append(l.as_str());
    payload.append(",\"offset\":");
    let o = u64_to_string(offset as u64);
    payload.append(o.as_str());
    payload.append(",\"uid\":");
    let u = u64_to_string(uid);
    payload.append(u.as_str());
    payload.append("}");
    proof {
        assert(payload@ =~= "{\"limit\":"@ + dec_rep(limit as nat) + ",\"offset\":"@ + dec_rep(
            offset as nat,
        ) + ",\"uid\":"@ + dec_rep(uid as nat) + "}"@);
    }
    ApiRequest {
        path: api_path("/weapi/user/playlist"),
        payload,
        cache_key: Some(String::from_str("play_list")),
    }
}

/// Subscribe to a playlist.
pub fn sub_play_request(id: usize) -> (r: ApiRequest)
    ensures
        r.path@ == target_spec() + "/weapi/playlist/subscribe"@,
        r.payload@ == "{\"id\":"@ + dec_rep(id as nat) + "}"@,
        r.cache_key is None,
{
    let mut payload = String::from_str("{\"id\":");
    let ids = u64_to_string(id as u64);
    payload.append(ids.as_str());
    payload.append("}");
    proof {
        assert(payload@ =~= "{\"id\":"@ + dec_rep(id as nat) + "}"@);
    }
    ApiRequest { path: api_path("/weapi/playlist/subscribe"), payload, cache_key: None }
}

/// Unsubscribe from a playlist.
pub fn unsub_play_request(id: usize) -> (r: ApiRequest)
    ensures
        r.path@ == target_spec() + "/weapi/playlist/unsubscribe"@,
        r.payload@ == "{\"id\":"@ + dec_rep(id as nat) + "}"@,
        r.cache_key is None,
{
    let mut payload = String::from_str("{\"id\":");
    let ids = u64_to_string(id as u64);
    payload.append(ids.as_str());
    payload.append("}");
    proof {
        assert(payload@ =~= "{\"id\":"@ + dec_rep(id as nat) + "}"@);
    }
    ApiRequest { path: api_path("/weapi/playlist/unsubscribe"), payload, cache_key: None }
}

/// Fetch a playlist's tracks; cached per playlist id.
pub fn play_detail_request(id: usize) -> (r: ApiRequest)
    ensures
        r.path@ == target_spec() + "/weapi/v6/playlist/detail"@,
        r.payload@ == "{\"id\":"@ + dec_rep(id as nat)
            + ",\"limit\":1000,\"n\":1000,\"offset\":0,\"total\":true}"@,
        match r.cache_key {
            Some(k) => k@ == "play_detail_"@ + dec_rep(id as nat),
            None => false,
        },
{
    let ids = u64_to_string(id as u64);
    let mut payload = String::from_str("{\"id\":");
    payload.append(ids.as_str());
    payload.append(",\"limit\":1000,\"n\":1000,\"offset\":0,\"total\":true}");
    let mut key = String::from_str("play_detail_");
    key.append(ids.as_str());
    proof {
        assert(payload@ =~= "{\"id\":"@ + dec_rep(id as nat)
            + ",\"limit\":1000,\"n\":1000,\"offset\":0,\"total\":true}"@);
    }
    ApiRequest { path: api_path("/weapi/v6/playlist/detail"), payload, cache_key: Some(key) }
}

/// Resolve a playable URL for a track.
pub fn song_url_request(id: usize) -> (r: ApiRequest)
    ensures
        r.path@ == target_spec() + "/weapi/song/enhance/player/url"@,
        r.payload@ == "{\"br\":128000,\"ids\":\"["@ + dec_rep(id as nat) + "]\"}"@,
        r.cache_key is None,
{
    let mut payload = String::from_str("{\"br\":128000,\"ids\":\"[");
    let ids = u64_to_string(id as u64);
    payload.append(ids.as_str());
    payload.append("]\"}");
    proof {
        assert(payload@ =~= "{\"br\":128000,\"ids\":\"["@ + dec_rep(id as nat) + "]\"}"@);
    }
    ApiRequest { path: api_path("/weapi/song/enhance/player/url"), payload, cache_key: None }
}

/// Fetch a track's details.
pub fn song_request(id: usize) -> (r: ApiRequest)
    ensures
        r.path@ == target_spec() + "/weapi/song/detail"@,
        r.payload@ == "{\"ids\":\"["@ + dec_rep(id as nat) + "]\"}"@,
        r.cache_key is None,
{
    let mut payload = String::from_str("{\"ids\":\"[");
    let ids = u64_to_string(id as u64);
    payload.append(ids.as_str());
    payload.append("]\"}");
    proof {
        assert(payload@ =~= "{\"ids\":\"["@ + dec_rep(id as nat) + "]\"}"@);
    }
    ApiRequest { path: api_path("/weapi/song/detail"), payload, cache_key: None }
}

// ---------------------------------------------------------------------------
// Cache and file names
// ---------------------------------------------------------------------------

/// The disk file a cache key is stored under.
pub fn cache_file_name(key: &str) -> (r: String)
    ensures
        r@ == key@ + ".cache"@,
{
    let mut r = String::from_str(key);
    r.append(".cache");
    r
}

/// The disk file a downloaded track is stored under.
pub fn song_file_name(id: usize) -> (r: String)
    ensures
        r@ == dec_rep(id as nat) + ".mp3"@,
{
    let mut r = u64_to_string(id as u64);
    r.append(".mp3");
    r
}

/// The disk file the cookie jar is persisted to.
pub fn cookie_file_name() -> (r: String)
    ensures
        r@ == "cookie.cache"@,
{
    String::from_str("cookie.cache")
}

/// The cache key a playlist mutation makes stale.
pub fn play_detail_key(id: usize) -> (r: String)
    ensures
        r@ == "play_detail_"@ + dec_rep(id as nat),
{
    let mut r = String::from_str("play_detail_");
    let ids = u64_to_string(id as u64);
    r.append(ids.as_str());
    r
}

/// The cache key a subscribe, create or delete makes stale.
pub fn play_list_key() -> (r: String)
    ensures
        r@ == "play_list"@,
{
    String::from_str("play_list")
}

// ---------------------------------------------------------------------------
// Classifying what came back
// ---------------------------------------------------------------------------

/// Classify a failed send. A connect failure or timeout means the process
/// is offline: exactly one Offline notification is emitted and the operation
/// fails with Offline — never with a rejection or a decode failure. Anything
/// else is a client-side failure carrying the transport's own words.
pub fn classify_send_error(is_timeout: bool, is_connect: bool, err_text: &str) -> (r: (
    NCErr,
    Vec<ES>,
))
    ensures
        (is_timeout || is_connect) ==> (r.0 is Offline && r.1@.len() == 1 && (match r.1@[0] {
            ES::AppState(s) => s is Offline,
            _ => false,
        })),
        !(is_timeout || is_connect) ==> (match r.0 {
            NCErr::Client(what, msg) => what@ == "req"@ && msg@ == err_text@,
            _ => false,
        }) && r.1@.len() == 0,
{
    if is_timeout || is_connect {
        let mut events: Vec<ES> = Vec::new();
        events.push(ES::AppState(AppState::Offline));
        (NCErr::Offline, events)
    } else {
        (
            NCErr::Client(String::from_str("req"), String::from_str(err_text)),
            Vec::new(),
        )
    }
}

/// Classify a response: only a success status with a nonempty body goes
/// on to decoding; anything else is a server rejection carrying the raw
/// text.
pub fn handle_response(status_success: bool, body: &str) -> (r: Result<(), NCErr>)
    ensures
        (status_success && body@.len() > 0) <==> r is Ok,
        match r {
            Result::Ok(_) => true,
            Result::Err(e) => match e {
                NCErr::Resp(t) => t@ == body@,
                _ => false,
            },
        },
{
    if !status_success || body.unicode_len() == 0 {
        Err(NCErr::Resp(String::from_str(body)))
    } else {
        Ok(())
    }
}

/// Classify a decode failure: a client-side failure carrying the endpoint,
/// the raw response text and the decoder's words.
pub fn parse_failure(endpoint: &str, body: &str, err: &str) -> (r: NCErr)
    ensures
        match r {
            NCErr::Client(what, msg) => what@ == endpoint@ && msg@ == body@ + " err "@ + err@,
            _ => false,
        },
{
    let mut msg = String::from_str(body);
    msg.append(" err ");
    msg.append(err);
    NCErr::Client(String::from_str(endpoint), msg)
}

// ---------------------------------------------------------------------------
// The login poll
// ---------------------------------------------------------------------------

/// What one login poll answer means.
#[derive(Debug, PartialEq, Eq, Structural, Clone, Copy)]
pub enum QrOutcome {
    /// The code was refused or timed out.
    Failed,
    /// Nobody scanned yet.
    Waiting,
    /// Scanned, waiting for the confirmation tap.
    Authing,
    /// Confirmed: the session cookie is now set and must be persisted.
    Confirmed,
    /// A code outside the protocol.
    Unexpected(i64),
}

/// The login poll switches on these exact codes.
pub fn qr_wait_outcome(code: i64) -> (r: QrOutcome)
    ensures
        r == (if code == 800 {
            QrOutcome::Failed
        } else if code == 801 {
            QrOutcome::Waiting
        } else if code == 802 {
            QrOutcome::Authing
        } else if code == 803 {
            QrOutcome::Confirmed
        } else {
            QrOutcome::Unexpected(code)
        }),
{
    if code == 800 {
        QrOutcome::Failed
    } else if code == 801 {
        QrOutcome::Waiting
    } else if code == 802 {
        QrOutcome::Authing
    } else if code == 803 {
        QrOutcome::Confirmed
    } else {
        QrOutcome::Unexpected(code)
    }
}

/// The login state to broadcast for a poll outcome.
pub fn qr_login_state(o: &QrOutcome) -> (r: Option<LoginState>)
    ensures
        match o {
            QrOutcome::Failed => r matches Some(s) && s is Failed,
            QrOutcome::Waiting => r matches Some(s) && s is Wait,
            QrOutcome::Authing => r matches Some(s) && s is Authing,
            QrOutcome::Confirmed => r matches Some(s) && s is Done,
            QrOutcome::Unexpected(_) => r is None,
        },
{
    match o {
        QrOutcome::Failed => Some(LoginState::Failed),
        QrOutcome::Waiting => Some(LoginState::Wait),
        QrOutcome::Authing => Some(LoginState::Authing),
        QrOutcome::Confirmed => Some(LoginState::Done),
        QrOutcome::Unexpected(_) => None,
    }
}

// ---------------------------------------------------------------------------
// The offline flag
// ---------------------------------------------------------------------------

/// The process-wide offline flag: set by a transport failure, probed again
/// a few seconds later, cleared by a successful profile fetch.
pub struct OfflineMonitor {
    pub offline: bool,
    /// When the last liveness probe was issued, in seconds.
    pub last_test: u64,
}

impl OfflineMonitor {
    pub fn new() -> (r: OfflineMonitor)
        ensures
            !r.offline,
            r.last_test == 0,
    {
        OfflineMonitor { offline: false, last_test: 0 }
    }

    /// A transport failure was observed at `now`.
    pub fn on_offline(&mut self, now: u64)
        ensures
            final(self).offline,
            final(self).last_test == now,
    {
        self.offline = true;
        self.last_test = now;
    }

    /// A remote operation succeeded: back online.
    pub fn on_online(&mut self)
        ensures
            !final(self).offline,
            final(self).last_test == old(self).last_test,
    {
        self.offline = false;
    }

    /// One second passed: while offline, more than three seconds after the
    /// last probe a new liveness probe is issued (and the probe clock
    /// restarts); otherwise nothing happens.
    pub fn on_tick(&mut self, now: u64, logged_in: bool) -> (r: Option<AppState>)
        ensures
            !old(self).offline ==> r is None && *final(self) == *old(self),
            old(self).offline ==> {
                let elapsed = if now >= old(self).last_test {
                    now - old(self).last_test
                } else {
                    0int
                };
                if elapsed > 3 {
                    &&& (match r {
                        Some(s) => if logged_in {
                            s is Authed
                        } else {
                            s is Authing
                        },
                        None => false,
                    })
                    &&& final(self).last_test == now
                    &&& final(self).offline
                } else {
                    r is None && *final(self) == *old(self)
                }
            },
    {
        if !self.offline {
            return None;
        }
        let elapsed = if now >= self.last_test {
            now - self.last_test
        } else {
            0
        };
        if elapsed > 3 {
            self.last_test = now;
            if logged_in {
                Some(AppState::Authed)
            } else {
                Some(AppState::Authing)
            }
        } else {
            None
        }
    }
}

/// The lazily resolved profile: fetched at most once per session before the
/// first authenticated call.
pub struct ProfileGuard {
    pub resolved: bool,
}

impl ProfileGuard {
    pub fn new() -> (r: ProfileGuard)
        ensures
            !r.resolved,
    {
        ProfileGuard { resolved: false }
    }

    /// Whether the profile still has to be fetched.
    pub fn needs_fetch(&self) -> (r: bool)
        ensures
            r == !self.resolved,
    {
        !self.resolved
    }

    /// The profile arrived; no further fetch is issued.
    pub fn mark_resolved(&mut self)
        ensures
            final(self).resolved,
    {
        self.resolved = true;
    }
}

} // verus!
