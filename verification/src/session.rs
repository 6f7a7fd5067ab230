//! Session bookkeeping: reading and writing the device-id cookie in a
//! cookie header line, and the login chain identifier.

use vstd::prelude::*;

use crate::text::{dec_rep, find_char_in, find_idx, lemma_find_idx_complete, lemma_find_idx_none,
    str_eq_at, u64_to_string};

verus! {

/// The device-id value carried by one "key=value" part: the text between
/// the first '=' and the next one (or the end), when the key matches.
pub open spec fn part_device_id(part: Seq<char>) -> Option<Seq<char>> {
    match find_idx(part, '=') {
        Some(eq) => if 0 <= eq <= part.len() && part.subrange(0, eq) == "sDeviceId"@ {
            let rest = part.subrange(eq + 1, part.len() as int);
            match find_idx(rest, '=') {
                Some(e2) => if 0 <= e2 <= rest.len() {
                    Some(rest.subrange(0, e2))
                } else {
                    Some(rest)
                },
                None => Some(rest),
            }
        } else {
            None
        },
        None => None,
    }
}

/// The device id a cookie header line carries: the value of the first
/// ';'-separated part whose key is exactly "sDeviceId".
pub open spec fn device_id_of(cookie: Seq<char>) -> Option<Seq<char>>
    decreases cookie.len(),
{
    match find_idx(cookie, ';') {
        Some(sc) => if 0 <= sc < cookie.len() {
            match part_device_id(cookie.subrange(0, sc)) {
                Some(v) => Some(v),
                None => device_id_of(cookie.subrange(sc + 1, cookie.len() as int)),
            }
        } else {
            None
        },
        None => part_device_id(cookie),
    }
}

/// Search one part, absolute indices `[from, to)` of `cookie`.
fn scan_part(cookie: &str, from: usize, to: usize) -> (r: Option<String>)
    requires
        from <= to <= cookie@.len(),
    ensures
        match r {
            Some(v) => part_device_id(cookie@.subrange(from as int, to as int)) == Some(v@),
            None => part_device_id(cookie@.subrange(from as int, to as int)) is None,
        },
{
    let ghost part = cookie@.subrange(from as int, to as int);
    let eq = match find_char_in(cookie, from, to, '=') {
        Some(i) => {
            proof {
                assert(part[i - from] == '=');
                assert forall|k: int| 0 <= k < i - from implies part[k] != '=' by {
                    assert(part[k] == cookie@[k + from]);
                }
                lemma_find_idx_complete(part, '=', i - from);
            }
            i
        },
        None => {
            proof {
                assert forall|k: int| 0 <= k < part.len() implies part[k] != '=' by {
                    assert(part[k] == cookie@[k + from]);
                }
                lemma_find_idx_none(part, '=');
            }
            return None;
        },
    };
    proof {
        reveal_strlit("sDeviceId");
    }
    if eq - from != 9 || !str_eq_at(cookie, from, "sDeviceId") {
        proof {
            assert("sDeviceId"@.len() == 9);
            assert(part.subrange(0, eq - from).len() == eq - from);
            if eq - from == 9 {
                assert(part.subrange(0, 9) =~= cookie@.subrange(from as int, from + 9));
            }
            assert(part.subrange(0, eq - from) != "sDeviceId"@);
        }
        return None;
    }
    proof {
        assert(part.subrange(0, eq - from) =~= cookie@.subrange(from as int, from + 9));
        assert(part.subrange(0, eq - from) == "sDeviceId"@);
    }
    let ghost rest = part.subrange(eq - from + 1, part.len() as int);
    let vend = match find_char_in(cookie, eq + 1, to, '=') {
        Some(i) => {
            proof {
                assert(rest[i - eq - 1] == '=');
                assert forall|k: int| 0 <= k < i - eq - 1 implies rest[k] != '=' by {
                    assert(rest[k] == cookie@[k + eq + 1]);
                }
                lemma_find_idx_complete(rest, '=', i - eq - 1);
            }
            i
        },
        None => {
            proof {
                assert forall|k: int| 0 <= k < rest.len() implies rest[k] != '=' by {
                    assert(rest[k] == cookie@[k + eq + 1]);
                }
                lemma_find_idx_none(rest, '=');
            }
            to
        },
    };
    proof {
        assert(cookie@.subrange(eq + 1, vend as int) =~= (match find_idx(rest, '=') {
            Some(e2) => rest.subrange(0, e2),
            None => rest,
        }));
    }
    Some(String::from_str(cookie.substring_char(eq + 1, vend)))
}

/// The device id in a cookie header line, as the session keeps it.
pub fn s_device_id(cookie: &str) -> (r: Option<String>)
    ensures
        match r {
            Some(v) => device_id_of(cookie@) == Some(v@),
            None => device_id_of(cookie@) is None,
        },
{
    let n = cookie.unicode_len();
    let mut pos: usize = 0;
    let mut last_done = false;
    proof {
        assert(cookie@.skip(0) == cookie@);
    }
    while pos < n && !last_done
        invariant
            pos <= n,
            n == cookie@.len(),
            !last_done ==> device_id_of(cookie@) == device_id_of(cookie@.skip(pos as int)),
            last_done ==> device_id_of(cookie@) is None,
        decreases n - pos, if last_done { 0int } else { 1int },
    {
        let ghost restc = cookie@.skip(pos as int);
        match find_char_in(cookie, pos, n, ';') {
            Some(i) => {
                proof {
                    assert(restc[i - pos] == ';');
                    assert forall|k: int| 0 <= k < i - pos implies restc[k] != ';' by {
                        assert(restc[k] == cookie@[k + pos]);
                    }
                    lemma_find_idx_complete(restc, ';', i - pos);
                    assert(restc.subrange(0, i - pos) =~= cookie@.subrange(pos as int, i as int));
                    assert(restc.subrange(i - pos + 1, restc.len() as int) =~= cookie@.skip(
                        i + 1,
                    ));
                }
                match scan_part(cookie, pos, i) {
                    Some(v) => {
                        return Some(v);
                    },
                    None => {},
                }
                pos = i + 1;
            },
            None => {
                proof {
                    assert forall|k: int| 0 <= k < restc.len() implies restc[k] != ';' by {
                        assert(restc[k] == cookie@[k + pos]);
                    }
                    lemma_find_idx_none(restc, ';');
                    assert(restc =~= cookie@.subrange(pos as int, n as int));
                }
                match scan_part(cookie, pos, n) {
                    Some(v) => {
                        return Some(v);
                    },
                    None => {},
                }
                last_done = true;
            },
        }
    }
    proof {
        if !last_done {
            assert(cookie@.skip(n as int) =~= Seq::<char>::empty());
        }
    }
    None
}

/// The cookie line that records a device id.
pub fn device_cookie(id: &str) -> (r: String)
    ensures
        r@ == "sDeviceId="@ + id@,
{
    let mut r = String::from_str("sDeviceId=");
    r.append(id);
    r
}

/// Relies on fastrand::u32: a value inside the given range is drawn (the
/// call panics on an empty range).
#[verifier::external_body]
fn random_u32_in(lo: u32, hi: u32) -> (r: u32)
    requires
        lo < hi,
    ensures
        lo <= r < hi,
{
    fastrand::u32(lo..hi)
}

/// A fallback device id for sessions that never stored one: "unknown-"
/// followed by a six-digit number.
pub fn fresh_device_id() -> (r: String)
    ensures
        exists|n: nat|
            100000 <= n < 1000000 && r@ == "unknown-"@ + #[trigger] dec_rep(n),
{
    let v = random_u32_in(100000, 1000000);
    let mut r = String::from_str("unknown-");
    let d = u64_to_string(v as u64);
    r.append(d.as_str());
    proof {
        assert(100000 <= v as nat && ((v as nat) < 1000000) && r@ == "unknown-"@ + dec_rep(
            v as nat,
        ));
    }
    r
}

/// The login chain identifier sent while polling a login: the device id and
/// the current time in milliseconds, in a fixed frame.
pub fn login_chain(sid: &str, millis: u64) -> (r: String)
    ensures
        r@ == "v1_"@ + sid@ + "_web_login_"@ + dec_rep(millis as nat),
{
    let mut r = String::from_str("v1_");
    r.append(sid);
    r.append("_web_login_");
    let m = u64_to_string(millis);
    r.append(m.as_str());
    r
}

} // verus!
