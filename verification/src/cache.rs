//! The response cache: an in-memory key/payload table with the on-disk key
//! policy, including the daily-rotating keys that expire at midnight. The
//! surrounding application mirrors the table to disk files.

use vstd::prelude::*;

use crate::codec::push_char;
use crate::text::{dec_rep, lemma_dec_rep_injective, lemma_pad2_injective, lemma_pad2_len, pad2,
    u64_to_string, u64_to_string_pad2};

verus! {

// ---------------------------------------------------------------------------
// Calendar dates and daily keys
// ---------------------------------------------------------------------------

/// A calendar date, as the daily cache keys carry it.
#[derive(PartialEq, Eq, Structural, Clone, Copy, Debug)]
pub struct Date {
    pub year: u16,
    pub month: u8,
    pub day: u8,
}

impl Date {
    pub open spec fn wf(&self) -> bool {
        &&& 1 <= self.month <= 12
        &&& 1 <= self.day <= 31
        &&& self.year <= 9999
    }
}

/// Relies on chrono's Local::now with Datelike: whatever instant the clock
/// reports, the month is 1 to 12 and the day of month 1 to 31.
#[verifier::external_body]
fn local_now_parts() -> (r: (i64, u32, u32))
    ensures
        1 <= r.1 <= 12,
        1 <= r.2 <= 31,
{
    let now = chrono::Local::now();
    (
        chrono::Datelike::year(&now) as i64,
        chrono::Datelike::month(&now),
        chrono::Datelike::day(&now),
    )
}

/// The date built from a clock reading: exactly the given parts, or nothing
/// when the year falls outside the range the keys render.
pub fn date_from_parts(y: i64, m: u32, d: u32) -> (r: Option<Date>)
    requires
        1 <= m <= 12,
        1 <= d <= 31,
    ensures
        r == (if 0 <= y <= 9999 {
            Some(Date { year: y as u16, month: m as u8, day: d as u8 })
        } else {
            Option::<Date>::None
        }),
        match r {
            Some(date) => date.wf(),
            None => true,
        },
{
    if y < 0 || y > 9999 {
        return None;
    }
    Some(Date { year: y as u16, month: m as u8, day: d as u8 })
}

/// Today's local date, range-checked by `date_from_parts`: whatever parts
/// the clock reported are returned unchanged when the year fits, and
/// nothing otherwise.
pub fn today() -> (r: Option<Date>)
    ensures
        match r {
            Some(d) => d.wf(),
            None => true,
        },
{
    let (y, m, d) = local_now_parts();
    date_from_parts(y, m, d)
}

/// The key of a daily-rotating endpoint: its name followed by the ISO date,
/// so one fetch is made per calendar day.
pub open spec fn daily_key_spec(prefix: Seq<char>, d: Date) -> Seq<char> {
    prefix + dec_rep(d.year as nat) + seq!['-'] + pad2(d.month as nat) + seq!['-'] + pad2(
        d.day as nat,
    )
}

pub fn daily_key(prefix: &str, d: &Date) -> (r: String)
    requires
        d.wf(),
    ensures
        r@ == daily_key_spec(prefix@, *d),
{
    let mut r = String::from_str(prefix);
    let y = u64_to_string(d.year as u64);
    r.append(y.as_str());
    push_char(&mut r, '-');
    let m = u64_to_string_pad2(d.month as u64);
    r.append(m.as_str());
    push_char(&mut r, '-');
    let dd = u64_to_string_pad2(d.day as u64);
    r.append(dd.as_str());
    proof {
        assert(r@ =~= daily_key_spec(prefix@, *d));
    }
    r
}

/// Two calls on the same day share a daily key; a call after the date rolled
/// over gets a fresh one: the key names the date exactly.
pub proof fn lemma_daily_key_injective(prefix: Seq<char>, d1: Date, d2: Date)
    requires
        d1.wf(),
        d2.wf(),
    ensures
        (daily_key_spec(prefix, d1) == daily_key_spec(prefix, d2)) <==> d1 == d2,
{
    if daily_key_spec(prefix, d1) == daily_key_spec(prefix, d2) {
        let k1 = daily_key_spec(prefix, d1);
        let k2 = daily_key_spec(prefix, d2);
        let y1 = dec_rep(d1.year as nat);
        let y2 = dec_rep(d2.year as nat);
        lemma_pad2_len(d1.month as nat);
        lemma_pad2_len(d1.day as nat);
        lemma_pad2_len(d2.month as nat);
        lemma_pad2_len(d2.day as nat);
        assert(k1.len() == prefix.len() + y1.len() + 6);
        assert(k2.len() == prefix.len() + y2.len() + 6);
        assert(y1.len() == y2.len());
        let p = prefix.len() as int;
        let yl = y1.len() as int;
        assert(y1 =~= y2) by {
            assert forall|i: int| 0 <= i < yl implies y1[i] == y2[i] by {
                assert(k1[p + i] == y1[i]);
                assert(k2[p + i] == y2[i]);
            }
        }
        lemma_dec_rep_injective(d1.year as nat, d2.year as nat);
        assert(pad2(d1.month as nat) =~= pad2(d2.month as nat)) by {
            assert forall|i: int| 0 <= i < 2 implies pad2(d1.month as nat)[i] == pad2(
                d2.month as nat,
            )[i] by {
                assert(k1[p + yl + 1 + i] == pad2(d1.month as nat)[i]);
                assert(k2[p + yl + 1 + i] == pad2(d2.month as nat)[i]);
            }
        }
        lemma_pad2_injective(d1.month as nat, d2.month as nat);
        assert(pad2(d1.day as nat) =~= pad2(d2.day as nat)) by {
            assert forall|i: int| 0 <= i < 2 implies pad2(d1.day as nat)[i] == pad2(
                d2.day as nat,
            )[i] by {
                assert(k1[p + yl + 4 + i] == pad2(d1.day as nat)[i]);
                assert(k2[p + yl + 4 + i] == pad2(d2.day as nat)[i]);
            }
        }
        lemma_pad2_injective(d1.day as nat, d2.day as nat);
    }
}

// ---------------------------------------------------------------------------
// The cache table
// ---------------------------------------------------------------------------

/// Whether the table holds the key.
pub open spec fn has_key(s: Seq<(String, String)>, k: Seq<char>) -> bool {
    exists|j: int| 0 <= j < s.len() && (#[trigger] s[j]).0@ == k
}

/// Whether the table maps the key to the payload.
pub open spec fn key_maps(s: Seq<(String, String)>, k: Seq<char>, v: Seq<char>) -> bool {
    exists|j: int| 0 <= j < s.len() && (#[trigger] s[j]).0@ == k && s[j].1@ == v
}

/// Response payloads by cache key. Never authoritative: a miss only means
/// the network is asked; the application mirrors entries to disk and feeds
/// them back at startup.
pub struct ResponseCache {
    pub entries: Vec<(String, String)>,
}

impl ResponseCache {
    /// Each key is held at most once.
    pub open spec fn wf(&self) -> bool {
        forall|i: int, j: int|
            0 <= i < j < self.entries@.len() ==> (#[trigger] self.entries@[i]).0@ != (
            #[trigger] self.entries@[j]).0@
    }

    pub fn new() -> (r: ResponseCache)
        ensures
            r.wf(),
            forall|k: Seq<char>| !has_key(r.entries@, k),
    {
        ResponseCache { entries: Vec::new() }
    }

    /// The payload stored for a key, a copy of it; nothing on a miss.
    pub fn get(&self, key: &str) -> (r: Option<String>)
        requires
            self.wf(),
        ensures
            match r {
                Some(v) => key_maps(self.entries@, key@, v@),
                None => !has_key(self.entries@, key@),
            },
    {
        let k = String::from_str(key);
        let mut i: usize = 0;
        while i < self.entries.len()
            invariant
                i <= self.entries@.len(),
                k@ == key@,
                forall|j: int| 0 <= j < i ==> (#[trigger] self.entries@[j]).0@ != key@,
            decreases self.entries@.len() - i,
        {
            if self.entries[i].0 == k {
                return Some(self.entries[i].1.clone());
            }
            i = i + 1;
        }
        None
    }

    /// Store a payload under a key, replacing what the key held.
    pub fn set(&mut self, key: &str, value: String)
        requires
            old(self).wf(),
        ensures
            final(self).wf(),
            key_maps(final(self).entries@, key@, value@),
            forall|k: Seq<char>, v: Seq<char>|
                k != key@ ==> #[trigger] key_maps(final(self).entries@, k, v) == key_maps(
                    old(self).entries@,
                    k,
                    v,
                ),
    {
        self.invalidate(key);
        let ghost mid = self.entries@;
        self.entries.push((String::from_str(key), value));
        proof {
            let n = mid.len() as int;
            assert(self.entries@[n].0@ == key@ && self.entries@[n].1@ == value@);
            assert forall|k: Seq<char>, v: Seq<char>| k != key@ implies #[trigger] key_maps(
                self.entries@,
                k,
                v,
            ) == key_maps(mid, k, v) by {
                if key_maps(self.entries@, k, v) {
                    let j = choose|j: int|
                        0 <= j < self.entries@.len() && (#[trigger] self.entries@[j]).0@ == k
                            && self.entries@[j].1@ == v;
                    assert(j < n && mid[j].0@ == k && mid[j].1@ == v);
                }
                if key_maps(mid, k, v) {
                    let j = choose|j: int|
                        0 <= j < mid.len() && (#[trigger] mid[j]).0@ == k && mid[j].1@ == v;
                    assert(self.entries@[j].0@ == k && self.entries@[j].1@ == v);
                }
            }
            assert forall|i: int, j: int| 0 <= i < j < self.entries@.len() implies (
            #[trigger] self.entries@[i]).0@ != (#[trigger] self.entries@[j]).0@ by {
                if j < n {
                    assert(mid[i].0@ != mid[j].0@);
                } else {
                    assert(!has_key(mid, key@));
                    assert(mid[i].0@ != key@);
                }
            }
        }
    }

    /// Drop whatever the key holds; called after any mutation that makes a
    /// cached listing stale.
    pub fn invalidate(&mut self, key: &str)
        requires
            old(self).wf(),
        ensures
            final(self).wf(),
            !has_key(final(self).entries@, key@),
            forall|k: Seq<char>, v: Seq<char>|
                k != key@ ==> #[trigger] key_maps(final(self).entries@, k, v) == key_maps(
                    old(self).entries@,
                    k,
                    v,
                ),
    {
        let ghost old_entries = self.entries@;
        let k = String::from_str(key);
        let mut i: usize = 0;
        while i < self.entries.len()
            invariant
                i <= self.entries@.len(),
                k@ == key@,
                self.entries@ == old_entries,
                old(self).entries@ == old_entries,
                old(self).wf(),
                forall|j: int| 0 <= j < i ==> (#[trigger] self.entries@[j]).0@ != key@,
            decreases self.entries@.len() - i,
        {
            if self.entries[i].0 == k {
                self.entries.remove(i);
                proof {
                    assert forall|x: Seq<char>| has_key(self.entries@, x) implies has_key(
                        old_entries,
                        x,
                    ) by {
                        let j = choose|j: int|
                            0 <= j < self.entries@.len() && (#[trigger] self.entries@[j]).0@ == x;
                        if j < i {
                            assert(old_entries[j].0@ == x);
                        } else {
                            assert(old_entries[j + 1].0@ == x);
                        }
                    }
                    assert(!has_key(self.entries@, key@)) by {
                        if has_key(self.entries@, key@) {
                            let j = choose|j: int|
                                0 <= j < self.entries@.len() && (#[trigger] self.entries@[j]).0@
                                    == key@;
                            if j < i {
                                assert(old_entries[j].0@ == key@);
                            } else {
                                assert(old_entries[j + 1].0@ == key@);
                            }
                        }
                    }
                    assert forall|x: Seq<char>, v: Seq<char>| x != key@ implies #[trigger] key_maps(
                        self.entries@,
                        x,
                        v,
                    ) == key_maps(old_entries, x, v) by {
                        if key_maps(self.entries@, x, v) {
                            let j = choose|j: int|
                                0 <= j < self.entries@.len() && (#[trigger] self.entries@[j]).0@
                                    == x && self.entries@[j].1@ == v;
                            if j < i {
                                assert(old_entries[j].0@ == x && old_entries[j].1@ == v);
                            } else {
                                assert(old_entries[j + 1].0@ == x && old_entries[j + 1].1@ == v);
                            }
                        }
                        if key_maps(old_entries, x, v) {
                            let j = choose|j: int|
                                0 <= j < old_entries.len() && (#[trigger] old_entries[j]).0@ == x
                                    && old_entries[j].1@ == v;
                            assert(j != i);
                            if j < i {
                                assert(self.entries@[j].0@ == x && self.entries@[j].1@ == v);
                            } else {
                                assert(self.entries@[j - 1].0@ == x && self.entries@[j - 1].1@
                                    == v);
                            }
                        }
                    }
                    assert forall|a: int, b: int|
                        0 <= a < b < self.entries@.len() implies (
                    #[trigger] self.entries@[a]).0@ != (#[trigger] self.entries@[b]).0@ by {
                        let oa = if a < i { a } else { a + 1 };
                        let ob = if b < i { b } else { b + 1 };
                        assert(self.entries@[a] == old_entries[oa]);
                        assert(self.entries@[b] == old_entries[ob]);
                    }
                }
                return ;
            }
            i = i + 1;
        }
    }
}

} // verus!
