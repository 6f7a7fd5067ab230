//! The playback engine: lyric timeline, play queue, play modes and the
//! failed-track bookkeeping that drives automatic advance.

use vstd::prelude::*;

use crate::text::{
    all_dec_digits, dec_val, find_char_in, find_idx, is_dec_digit, lemma_find_idx_complete,
    lemma_find_idx_none, parse_digits, parse_u16_or_zero,
};

verus! {

/// One timed lyric line: the second it starts at, and its text.
#[derive(Clone, Debug)]
pub struct Lyric {
    pub text: String,
    pub duration: u16,
}

pub open spec fn lyric_view(l: Lyric) -> (u16, Seq<char>) {
    (l.duration, l.text@)
}

pub open spec fn lyric_views(v: Seq<Lyric>) -> Seq<(u16, Seq<char>)> {
    v.map_values(|l: Lyric| lyric_view(l))
}

// ---------------------------------------------------------------------------
// Lyric parsing
// ---------------------------------------------------------------------------

pub open spec fn sat_u16(n: nat) -> u16 {
    if n > 0xffff {
        0xffffu16
    } else {
        n as u16
    }
}

/// The seconds field: the text up to the next ':' if any.
pub open spec fn seconds_field(rest: Seq<char>) -> Seq<char> {
    match find_idx(rest, ':') {
        Some(i) => rest.subrange(0, i),
        None => rest,
    }
}

/// A field with its fractional part cut off.
pub open spec fn truncate_fraction(f: Seq<char>) -> Seq<char> {
    match find_idx(f, '.') {
        Some(i) => f.subrange(0, i),
        None => f,
    }
}

/// The timestamp a bracket's inside denotes: minutes before the first ':',
/// whole seconds from the following field, fraction dropped.
pub open spec fn line_stamp(inner: Seq<char>) -> u16 {
    match find_idx(inner, ':') {
        Some(ci) => {
            let mins = parse_u16_or_zero(inner.subrange(0, ci));
            let secs = parse_u16_or_zero(
                truncate_fraction(seconds_field(inner.subrange(ci + 1, inner.len() as int))),
            );
            sat_u16(mins as nat * 60 + secs as nat)
        },
        None => sat_u16(parse_u16_or_zero(inner) as nat * 60),
    }
}

/// What one line of lyric text parses to: a line is timed only when it
/// starts with '[' and holds a closing ']'; the text follows the bracket.
pub open spec fn parse_line(line: Seq<char>) -> Option<(u16, Seq<char>)> {
    if line.len() > 0 && line[0] == '[' {
        match find_idx(line, ']') {
            Some(rb) => if 0 <= rb < line.len() {
                Some((line_stamp(line.subrange(1, rb)), line.subrange(rb + 1, line.len() as int)))
            } else {
                None
            },
            None => None,
        }
    } else {
        None
    }
}

pub open spec fn maybe_line(o: Option<(u16, Seq<char>)>) -> Seq<(u16, Seq<char>)> {
    match o {
        Some(e) => seq![e],
        None => Seq::empty(),
    }
}

/// What a whole lyric text parses to: its newline-separated lines in input
/// order, untimed lines dropped.
pub open spec fn parse_lyrics(s: Seq<char>) -> Seq<(u16, Seq<char>)>
    decreases s.len(),
{
    match find_idx(s, '\n') {
        Some(nl) => if 0 <= nl < s.len() {
            maybe_line(parse_line(s.subrange(0, nl))) + parse_lyrics(
                s.subrange(nl + 1, s.len() as int),
            )
        } else {
            Seq::empty()
        },
        None => maybe_line(parse_line(s)),
    }
}

/// Parse one line.
fn parse_line_str(line: &str) -> (r: Option<Lyric>)
    ensures
        match r {
            Some(l) => parse_line(line@) == Some(lyric_view(l)),
            None => parse_line(line@) is None,
        },
{
    let n = line.unicode_len();
    if n == 0 {
        return None;
    }
    if line.get_char(0) != '[' {
        return None;
    }
    let rb = match find_char_in(line, 0, n, ']') {
        Some(i) => i,
        None => {
            proof {
                lemma_find_idx_none(line@, ']');
            }
            return None;
        },
    };
    proof {
        lemma_find_idx_complete(line@, ']', rb as int);
    }
    let ghost inner = line@.subrange(1, rb as int);
    let stamp: u16;
    match find_char_in(line, 1, rb, ':') {
        Some(ci) => {
            proof {
                assert(inner[ci - 1] == ':');
                assert forall|j: int| 0 <= j < ci - 1 implies inner[j] != ':' by {
                    assert(inner[j] == line@[j + 1]);
                }
                lemma_find_idx_complete(inner, ':', ci - 1);
            }
            let mins = parse_digits(line, 1, ci);
            proof {
                assert(inner.subrange(0, ci - 1) =~= line@.subrange(1, ci as int));
            }
            let ghost rest = inner.subrange(ci - 1 + 1, inner.len() as int);
            proof {
                assert(rest =~= line@.subrange(ci + 1, rb as int));
            }
            let e2 = match find_char_in(line, ci + 1, rb, ':') {
                Some(j) => {
                    proof {
                        assert(rest[j - ci - 1] == ':');
                        assert forall|k: int| 0 <= k < j - ci - 1 implies rest[k] != ':' by {
                            assert(rest[k] == line@[k + ci + 1]);
                        }
                        lemma_find_idx_complete(rest, ':', j - ci - 1);
                        assert(seconds_field(rest) =~= line@.subrange(ci + 1, j as int));
                    }
                    j
                },
                None => {
                    proof {
                        assert forall|k: int| 0 <= k < rest.len() implies rest[k] != ':' by {
                            assert(rest[k] == line@[k + ci + 1]);
                        }
                        lemma_find_idx_none(rest, ':');
                        assert(seconds_field(rest) =~= line@.subrange(ci + 1, rb as int));
                    }
                    rb
                },
            };
            let ghost field = seconds_field(rest);
            proof {
                assert(field =~= line@.subrange(ci + 1, e2 as int));
            }
            let ef = match find_char_in(line, ci + 1, e2, '.') {
                Some(j) => {
                    proof {
                        assert(field[j - ci - 1] == '.');
                        assert forall|k: int| 0 <= k < j - ci - 1 implies field[k] != '.' by {
                            assert(field[k] == line@[k + ci + 1]);
                        }
                        lemma_find_idx_complete(field, '.', j - ci - 1);
                        assert(truncate_fraction(field) =~= line@.subrange(ci + 1, j as int));
                    }
                    j
                },
                None => {
                    proof {
                        assert forall|k: int| 0 <= k < field.len() implies field[k] != '.' by {
                            assert(field[k] == line@[k + ci + 1]);
                        }
                        lemma_find_idx_none(field, '.');
                        assert(truncate_fraction(field) =~= line@.subrange(ci + 1, e2 as int));
                    }
                    e2
                },
            };
            let secs = parse_digits(line, ci + 1, ef);
            let total: u32 = mins as u32 * 60 + secs as u32;
            stamp = if total > 0xffff {
                0xffffu16
            } else {
                total as u16
            };
        },
        None => {
            proof {
                assert forall|j: int| 0 <= j < inner.len() implies inner[j] != ':' by {
                    assert(inner[j] == line@[j + 1]);
                }
                lemma_find_idx_none(inner, ':');
                assert(inner =~= line@.subrange(1, rb as int));
            }
            let m = parse_digits(line, 1, rb);
            let total: u32 = m as u32 * 60;
            stamp = if total > 0xffff {
                0xffffu16
            } else {
                total as u16
            };
        },
    }
    let text = String::from_str(line.substring_char(rb + 1, n));
    Some(Lyric { text, duration: stamp })
}

/// Parse a whole lyric text into its timed lines, in input order.
pub fn parse_lyric(text: &str) -> (r: Vec<Lyric>)
    ensures
        lyric_views(r@) == parse_lyrics(text@),
{
    let n = text.unicode_len();
    let mut out: Vec<Lyric> = Vec::new();
    let mut pos: usize = 0;
    proof {
        assert(text@.skip(0) == text@);
        assert(lyric_views(out@) =~= Seq::<(u16, Seq<char>)>::empty());
    }
    while pos < n
        invariant
            pos <= n,
            n == text@.len(),
            parse_lyrics(text@) =~= lyric_views(out@) + parse_lyrics(text@.skip(pos as int)),
        decreases n - pos,
    {
        let ghost rest = text@.skip(pos as int);
        let (line_end, next_pos): (usize, usize) = match find_char_in(text, pos, n, '\n') {
            Some(i) => {
                proof {
                    assert(rest[i - pos] == '\n');
                    assert forall|k: int| 0 <= k < i - pos implies rest[k] != '\n' by {
                        assert(rest[k] == text@[k + pos]);
                    }
                    lemma_find_idx_complete(rest, '\n', i - pos);
                }
                (i, i + 1)
            },
            None => {
                proof {
                    assert forall|k: int| 0 <= k < rest.len() implies rest[k] != '\n' by {
                        assert(rest[k] == text@[k + pos]);
                    }
                    lemma_find_idx_none(rest, '\n');
                }
                (n, n)
            },
        };
        let line = text.substring_char(pos, line_end);
        proof {
            if line_end < n {
                // A newline was found: the spec splits at it.
                assert(rest.subrange(0, line_end - pos) =~= line@);
                assert(rest.subrange(line_end - pos + 1, rest.len() as int) =~= text@.skip(
                    next_pos as int,
                ));
            } else {
                assert(rest =~= line@);
            }
        }
        let ghost out0 = out@;
        match parse_line_str(line) {
            Some(l) => {
                out.push(l);
                proof {
                    assert(lyric_views(out@) =~= lyric_views(out0) + seq![lyric_view(l)]);
                    assert(maybe_line(parse_line(line@)) =~= seq![lyric_view(l)]);
                }
            },
            None => {
                proof {
                    assert(maybe_line(parse_line(line@)) =~= Seq::<(u16, Seq<char>)>::empty());
                }
            },
        }
        proof {
            if line_end == n {
                assert(parse_lyrics(text@.skip(next_pos as int)) =~= Seq::<(
                    u16,
                    Seq<char>,
                )>::empty()) by {
                    assert(text@.skip(n as int) =~= Seq::<char>::empty());
                }
            }
        }
        pos = next_pos;
    }
    proof {
        assert(text@.skip(n as int) =~= Seq::<char>::empty());
        assert(parse_lyrics(text@) =~= lyric_views(out@));
    }
    out
}

/// Index of the lyric line on screen at `offset`: the first line whose
/// bracket covers the offset; the first line before the timeline starts,
/// the last line after it ends.
pub fn get_lyric(offset: u16, lyrics: &[Lyric]) -> (r: Option<usize>)
    ensures
        (lyrics@.len() == 0) == (r is None),
        match r {
            Some(i) => {
                let len = lyrics@.len() as int;
                &&& 0 <= i < len
                &&& (offset < lyrics@[0].duration ==> i == 0)
                &&& (offset >= lyrics@[0].duration ==> {
                    &&& (i < len - 1 ==> lyrics@[i as int].duration <= offset
                        < lyrics@[i + 1].duration)
                    &&& forall|j: int|
                        0 <= j < i && j < len - 1 ==> !((#[trigger] lyrics@[j]).duration <= offset
                            < lyrics@[j + 1].duration)
                    &&& (i == len - 1 ==> forall|j: int|
                        0 <= j < len - 1 ==> !((#[trigger] lyrics@[j]).duration <= offset
                            < lyrics@[j + 1].duration))
                })
            },
            None => true,
        },
{
    let len = lyrics.len();
    if len == 0 {
        return None;
    }
    if offset < lyrics[0].duration {
        return Some(0);
    }
    let mut index: usize = 0;
    while index < len - 1
        invariant
            0 <= index <= len - 1,
            len == lyrics@.len(),
            offset >= lyrics@[0].duration,
            forall|j: int|
                0 <= j < index ==> !((#[trigger] lyrics@[j]).duration <= offset < lyrics@[j
                    + 1].duration),
        decreases len - index,
    {
        if offset >= lyrics[index].duration && offset < lyrics[index + 1].duration {
            return Some(index);
        }
        index = index + 1;
    }
    Some(len - 1)
}


// ---------------------------------------------------------------------------
// Failed tracks
// ---------------------------------------------------------------------------

/// Ids of the tracks that failed this session; automatic advance skips them.
pub struct FailedSet {
    pub ids: Vec<usize>,
}

impl FailedSet {
    pub open spec fn spec_contains(&self, id: usize) -> bool {
        exists|j: int| 0 <= j < self.ids@.len() && self.ids@[j] == id
    }

    /// No id is recorded twice.
    pub open spec fn wf(&self) -> bool {
        forall|i: int, j: int| 0 <= i < j < self.ids@.len() ==> self.ids@[i] != self.ids@[j]
    }

    pub fn new() -> (r: FailedSet)
        ensures
            r.wf(),
            forall|x: usize| !r.spec_contains(x),
    {
        FailedSet { ids: Vec::new() }
    }

    pub fn contains(&self, id: usize) -> (r: bool)
        ensures
            r == self.spec_contains(id),
    {
        let mut i: usize = 0;
        while i < self.ids.len()
            invariant
                i <= self.ids@.len(),
                forall|j: int| 0 <= j < i ==> self.ids@[j] != id,
            decreases self.ids@.len() - i,
        {
            if self.ids[i] == id {
                return true;
            }
            i = i + 1;
        }
        false
    }

    pub fn insert(&mut self, id: usize)
        requires
            old(self).wf(),
        ensures
            final(self).wf(),
            forall|x: usize|
                final(self).spec_contains(x) == (old(self).spec_contains(x) || x == id),
    {
        if !self.contains(id) {
            let ghost old_ids = self.ids@;
            self.ids.push(id);
            proof {
                assert forall|x: usize|
                    self.spec_contains(x) == (old(self).spec_contains(x) || x == id) by {
                    if old(self).spec_contains(x) {
                        let j = choose|j: int| 0 <= j < old_ids.len() && old_ids[j] == x;
                        assert(self.ids@[j] == x);
                    }
                    if self.spec_contains(x) {
                        let j = choose|j: int| 0 <= j < self.ids@.len() && self.ids@[j] == x;
                        if j < old_ids.len() {
                            assert(old_ids[j] == x);
                        }
                    }
                    assert(self.ids@[old_ids.len() as int] == id);
                }
            }
        }
    }

    pub fn remove(&mut self, id: usize)
        requires
            old(self).wf(),
        ensures
            final(self).wf(),
            forall|x: usize|
                final(self).spec_contains(x) == (old(self).spec_contains(x) && x != id),
    {
        let ghost old_ids = self.ids@;
        let mut i: usize = 0;
        while i < self.ids.len()
            invariant
                i <= self.ids@.len(),
                self.ids@ == old_ids,
                old(self).ids@ == old_ids,
                old(self).wf(),
                forall|j: int| 0 <= j < i ==> self.ids@[j] != id,
            decreases self.ids@.len() - i,
        {
            if self.ids[i] == id {
                self.ids.remove(i);
                proof {
                    assert forall|x: usize|
                        self.spec_contains(x) == (old(self).spec_contains(x) && x != id)
                    by {
                        if self.spec_contains(x) {
                            let j = choose|j: int|
                                0 <= j < self.ids@.len() && self.ids@[j] == x;
                            if j < i {
                                assert(old_ids[j] == x);
                            } else {
                                assert(old_ids[j + 1] == x);
                            }
                        }
                        if old(self).spec_contains(x) && x != id {
                            let j = choose|j: int| 0 <= j < old_ids.len() && old_ids[j] == x;
                            assert(j != i);
                            if j < i {
                                assert(self.ids@[j] == x);
                            } else {
                                assert(self.ids@[j - 1] == x);
                            }
                        }
                    }
                    assert forall|a: int, b: int|
                        0 <= a < b < self.ids@.len() implies self.ids@[a] != self.ids@[b] by {
                        let oa = if a < i { a } else { a + 1 };
                        let ob = if b < i { b } else { b + 1 };
                        assert(self.ids@[a] == old_ids[oa]);
                        assert(self.ids@[b] == old_ids[ob]);
                    }
                }
                return ;
            }
            i = i + 1;
        }
    }

    pub fn clear(&mut self)
        ensures
            final(self).wf(),
            forall|x: usize| !final(self).spec_contains(x),
    {
        self.ids.clear();
    }
}

// ---------------------------------------------------------------------------
// Cloning queue values
// ---------------------------------------------------------------------------

use crate::typ::{Arter, PlayItem};

/// A field-for-field copy of one artist entry.
fn clone_arter(a: &Arter) -> (r: Arter)
    ensures
        r == *a,
{
    let name = match &a.name {
        Some(s) => Some(s.clone()),
        None => None,
    };
    Arter { id: a.id, name }
}

/// Two tracks that agree on every field (their artist vectors as sequences).
pub open spec fn item_like(a: PlayItem, b: PlayItem) -> bool {
    a.id == b.id && a.dt == b.dt && a.name == b.name && a.art_r@ == b.art_r@
}

/// A field-for-field copy of one track.
pub fn clone_item(it: &PlayItem) -> (r: PlayItem)
    ensures
        item_like(r, *it),
{
    let mut art_r: Vec<Arter> = Vec::new();
    let mut i: usize = 0;
    while i < it.art_r.len()
        invariant
            i <= it.art_r@.len(),
            art_r@ =~= it.art_r@.subrange(0, i as int),
        decreases it.art_r@.len() - i,
    {
        art_r.push(clone_arter(&it.art_r[i]));
        proof {
            assert(art_r@ =~= it.art_r@.subrange(0, i + 1));
        }
        i = i + 1;
    }
    proof {
        assert(art_r@ =~= it.art_r@);
    }
    PlayItem { name: it.name.clone(), id: it.id, dt: it.dt, art_r }
}

/// A field-for-field copy of a lyric list, for broadcasting.
pub fn clone_lyrics(v: &Vec<Lyric>) -> (r: Vec<Lyric>)
    ensures
        r@ == v@,
{
    let mut r: Vec<Lyric> = Vec::new();
    let mut i: usize = 0;
    while i < v.len()
        invariant
            i <= v@.len(),
            r@ =~= v@.subrange(0, i as int),
        decreases v@.len() - i,
    {
        let l = &v[i];
        r.push(Lyric { text: l.text.clone(), duration: l.duration });
        proof {
            assert(r@ =~= v@.subrange(0, i + 1));
        }
        i = i + 1;
    }
    proof {
        assert(r@ =~= v@);
    }
    r
}

// ---------------------------------------------------------------------------
// Advancing through the queue
// ---------------------------------------------------------------------------

use crate::event::{PlayMode, PlayState};

pub open spec fn ids_of(list: Seq<PlayItem>) -> Seq<usize> {
    list.map_values(|t: PlayItem| t.id)
}

/// Whether some track of the queue carries the given id.
pub open spec fn has_id(list: Seq<PlayItem>, id: usize) -> bool {
    exists|j: int| 0 <= j < list.len() && list[j].id == id
}

/// The id found by scanning at most `k` positions from `cur` (which wraps to
/// the front when it runs off the end), skipping failed tracks.
pub open spec fn first_playable(ids: Seq<usize>, bad: FailedSet, cur: int, k: nat) -> Option<usize>
    decreases k,
{
    if k == 0 || ids.len() == 0 {
        None
    } else {
        let i = if cur >= ids.len() { 0int } else { cur };
        if !bad.spec_contains(ids[i]) {
            Some(ids[i])
        } else {
            first_playable(ids, bad, i + 1, (k - 1) as nat)
        }
    }
}

/// Where an advance starts scanning: the front for an explicit start, the
/// position after the selected track otherwise.
pub open spec fn advance_start(selected: Option<usize>, first: bool) -> int {
    if first {
        0
    } else {
        match selected {
            Some(v) => v + 1,
            None => 0,
        }
    }
}

/// The whole advance policy over a queue: SingleLoop replays the selected
/// track unless it failed; Single never advances automatically; Order and
/// Random scan onward, wrapping once, and skip failed tracks.
pub open spec fn advance_result(
    list: Seq<PlayItem>,
    bad: FailedSet,
    mode: PlayMode,
    selected: Option<usize>,
    first: bool,
) -> Option<usize> {
    let len = list.len();
    if len == 0 {
        None
    } else {
        match mode {
            PlayMode::SingleLoop => {
                let idx = match selected {
                    Some(i) => i as int,
                    None => 0int,
                };
                if bad.spec_contains(list[idx].id) {
                    None
                } else {
                    Some(list[idx].id)
                }
            },
            PlayMode::Single => if first {
                first_playable(ids_of(list), bad, 0, len)
            } else {
                None
            },
            _ => first_playable(ids_of(list), bad, advance_start(selected, first), len),
        }
    }
}

/// An advance never yields a failed track, and yields a track of the queue.
pub proof fn lemma_advance_skips_failed(ids: Seq<usize>, bad: FailedSet, cur: int, k: nat)
    requires
        cur >= 0,
    ensures
        match first_playable(ids, bad, cur, k) {
            Some(id) => !bad.spec_contains(id) && ids.contains(id),
            None => true,
        },
    decreases k,
{
    if k > 0 && ids.len() > 0 {
        let i = if cur >= ids.len() { 0int } else { cur };
        if !bad.spec_contains(ids[i]) {
            assert(exists|j: int| 0 <= j < ids.len() && ids[j] == ids[i]) by {
                assert(ids[i] == ids[i]);
            }
        } else {
            lemma_advance_skips_failed(ids, bad, i + 1, (k - 1) as nat);
        }
    }
}

/// Cyclic distance from `from` to `to` in a queue of length `len`.
pub open spec fn cyc_dist(from: int, to: int, len: int) -> int {
    if to >= from {
        to - from
    } else {
        len - from + to
    }
}

proof fn lemma_advance_reaches(ids: Seq<usize>, bad: FailedSet, cur: int, k: nat, j: int)
    requires
        0 <= cur <= ids.len(),
        0 <= j < ids.len(),
        !bad.spec_contains(ids[j]),
        cyc_dist(if cur >= ids.len() { 0int } else { cur }, j, ids.len() as int) < k,
    ensures
        first_playable(ids, bad, cur, k) is Some,
    decreases k,
{
    let i = if cur >= ids.len() { 0int } else { cur };
    if bad.spec_contains(ids[i]) {
        assert(i != j);
        lemma_advance_reaches(ids, bad, i + 1, (k - 1) as nat, j);
    }
}

/// A bounded advance over the whole queue finds a track exactly when some
/// track has not failed: a fully failed queue yields "nothing playable"
/// instead of scanning forever.
pub proof fn lemma_advance_complete(ids: Seq<usize>, bad: FailedSet, cur: int)
    requires
        0 <= cur <= ids.len(),
    ensures
        first_playable(ids, bad, cur, ids.len() as nat) is Some <==> exists|j: int|
            0 <= j < ids.len() && !bad.spec_contains(#[trigger] ids[j]),
{
    if exists|j: int| 0 <= j < ids.len() && !bad.spec_contains(#[trigger] ids[j]) {
        let j = choose|j: int| 0 <= j < ids.len() && !bad.spec_contains(#[trigger] ids[j]);
        lemma_advance_reaches(ids, bad, cur, ids.len() as nat, j);
    }
    if first_playable(ids, bad, cur, ids.len() as nat) is Some {
        lemma_advance_skips_failed(ids, bad, cur, ids.len() as nat);
        let id = first_playable(ids, bad, cur, ids.len() as nat)->Some_0;
        let j = choose|j: int| 0 <= j < ids.len() && ids[j] == id;
        assert(!bad.spec_contains(ids[j]));
    }
}

/// Relies on fastrand::shuffle: the items are permuted in place, so the new
/// order holds exactly the old items.
#[verifier::external_body]
fn shuffle_items(v: &mut Vec<PlayItem>)
    ensures
        final(v)@.to_multiset() == old(v)@.to_multiset(),
        final(v)@.len() == old(v)@.len(),
{
    fastrand::shuffle(v.as_mut_slice());
}

// ---------------------------------------------------------------------------
// The player
// ---------------------------------------------------------------------------

/// The playback engine's state: current track, queue, mode, lyric timeline
/// and failure bookkeeping. I/O-free: the event loop feeds it messages and
/// carries out the track requests it returns.
pub struct Player {
    pub state: PlayState,
    pub current: Option<PlayItem>,
    /// Elapsed playback offset, in seconds.
    pub offset: u64,
    pub list: Vec<PlayItem>,
    /// The queue position the cursor rests on.
    pub selected: Option<usize>,
    /// The queue position of the playing track.
    pub list_index: usize,
    pub play_mode: PlayMode,
    /// Volume in permille of full scale.
    pub volume: u32,
    pub lyrics: Vec<Lyric>,
    pub bad: FailedSet,
}

/// What one second of playback produced: an offset to broadcast, whether the
/// track ended, and the track to request next if it did.
pub struct TickOut {
    pub offset_event: Option<u64>,
    pub ended: bool,
    pub advance: Option<usize>,
}

impl Player {
    pub open spec fn wf(&self) -> bool {
        &&& self.bad.wf()
        &&& match self.selected {
            Some(i) => i < self.list@.len(),
            None => true,
        }
        &&& self.volume <= 1000
    }

    /// A fresh player: idle, empty queue, single-track mode, the given
    /// initial volume (clamped to full scale).
    pub fn new(volume: u32) -> (r: Player)
        ensures
            r.wf(),
            r.state is Idle,
            r.current is None,
            r.offset == 0,
            r.list@.len() == 0,
            r.selected is None,
            r.play_mode is Single,
            r.volume == if volume > 1000 { 1000u32 } else { volume },
            r.lyrics@.len() == 0,
            forall|x: usize| !r.bad.spec_contains(x),
    {
        Player {
            state: PlayState::Idle,
            current: None,
            offset: 0,
            list: Vec::new(),
            selected: None,
            list_index: 0,
            play_mode: PlayMode::Single,
            volume: if volume > 1000 { 1000 } else { volume },
            lyrics: Vec::new(),
            bad: FailedSet::new(),
        }
    }

    /// Pick the next track per the play mode, skipping failed tracks, with
    /// at most one full wrap over the queue. In Random mode a wrap reshuffles
    /// the queue first; nothing else changes.
    pub fn play_next(&mut self, first: bool) -> (r: Option<usize>)
        requires
            old(self).wf(),
        ensures
            final(self).wf(),
            r == advance_result(
                final(self).list@,
                old(self).bad,
                old(self).play_mode,
                old(self).selected,
                first,
            ),
            final(self).list@.to_multiset() == old(self).list@.to_multiset(),
            !(old(self).play_mode is Random) ==> final(self).list == old(self).list,
            final(self).state == old(self).state,
            final(self).current == old(self).current,
            final(self).offset == old(self).offset,
            final(self).selected == old(self).selected,
            final(self).list_index == old(self).list_index,
            final(self).play_mode == old(self).play_mode,
            final(self).volume == old(self).volume,
            final(self).lyrics == old(self).lyrics,
            final(self).bad == old(self).bad,
    {
        let len = self.list.len();
        if len == 0 {
            return None;
        }
        match self.play_mode {
            PlayMode::SingleLoop => {
                let idx = match self.selected {
                    Some(i) => i,
                    None => 0,
                };
                let id = self.list[idx].id;
                if self.bad.contains(id) {
                    return None;
                }
                return Some(id);
            },
            PlayMode::Single => {
                if !first {
                    return None;
                }
            },
            _ => {},
        }
        let mut start: usize = 0;
        if !first {
            start = match self.selected {
                Some(v) => v + 1,
                None => 0,
            };
            if start == len {
                if matches!(self.play_mode, PlayMode::Random) {
                    shuffle_items(&mut self.list);
                }
                start = 0;
            }
        }
        let ghost fin_ids = ids_of(self.list@);
        let ghost target = advance_result(
            self.list@,
            old(self).bad,
            old(self).play_mode,
            old(self).selected,
            first,
        );
        proof {
            // After an explicit wrap the scan starts at the front, which the
            // policy's scan from one past the end also does.
            assert(target == first_playable(fin_ids, self.bad, start as int, len as nat));
        }
        let mut cur = start;
        let mut k: usize = 0;
        while k < len
            invariant
                k <= len,
                cur <= len,
                len > 0,
                len == self.list@.len(),
                len == old(self).list@.len(),
                fin_ids == ids_of(self.list@),
                self.bad == old(self).bad,
                old(self).wf(),
                target == advance_result(
                    self.list@,
                    old(self).bad,
                    old(self).play_mode,
                    old(self).selected,
                    first,
                ),
                target == first_playable(fin_ids, self.bad, cur as int, (len - k) as nat),
                self.list@.to_multiset() == old(self).list@.to_multiset(),
                !(old(self).play_mode is Random) ==> self.list == old(self).list,
                self.state == old(self).state,
                self.current == old(self).current,
                self.offset == old(self).offset,
                self.selected == old(self).selected,
                self.list_index == old(self).list_index,
                self.play_mode == old(self).play_mode,
                self.volume == old(self).volume,
                self.lyrics == old(self).lyrics,
            decreases len - k,
        {
            let idx = if cur >= len { 0 } else { cur };
            let id = self.list[idx].id;
            proof {
                assert(fin_ids[idx as int] == self.list@[idx as int].id);
            }
            if !self.bad.contains(id) {
                return Some(id);
            }
            cur = idx + 1;
            k = k + 1;
        }
        None
    }

    /// Switch the play mode; entering Random mode reshuffles the queue.
    pub fn set_play_mode(&mut self, mode: PlayMode)
        requires
            old(self).wf(),
        ensures
            final(self).wf(),
            final(self).play_mode == mode,
            final(self).list@.to_multiset() == old(self).list@.to_multiset(),
            !(mode is Random) ==> final(self).list == old(self).list,
            final(self).state == old(self).state,
            final(self).current == old(self).current,
            final(self).offset == old(self).offset,
            final(self).selected == old(self).selected,
            final(self).volume == old(self).volume,
            final(self).lyrics == old(self).lyrics,
            final(self).bad == old(self).bad,
    {
        self.play_mode = mode;
        if matches!(self.play_mode, PlayMode::Random) {
            shuffle_items(&mut self.list);
        }
    }
}


// ---------------------------------------------------------------------------
// Queue updates and playback events
// ---------------------------------------------------------------------------

use crate::event::PlayListOP;

/// Index of the first queue entry with the given id.
pub open spec fn find_id(list: Seq<PlayItem>, id: usize) -> Option<int>
    decreases list.len(),
{
    if list.len() == 0 {
        None
    } else if list[0].id == id {
        Some(0int)
    } else {
        match find_id(list.drop_first(), id) {
            Some(i) => Some(i + 1),
            None => None,
        }
    }
}

proof fn lemma_find_id_none(list: Seq<PlayItem>, id: usize)
    requires
        forall|j: int| 0 <= j < list.len() ==> (#[trigger] list[j]).id != id,
    ensures
        find_id(list, id) is None,
    decreases list.len(),
{
    if list.len() > 0 {
        lemma_find_id_none(list.drop_first(), id);
    }
}

proof fn lemma_find_id_complete(list: Seq<PlayItem>, id: usize, i: int)
    requires
        0 <= i < list.len(),
        list[i].id == id,
        forall|j: int| 0 <= j < i ==> (#[trigger] list[j]).id != id,
    ensures
        find_id(list, id) == Some(i),
    decreases list.len(),
{
    if i > 0 {
        lemma_find_id_complete(list.drop_first(), id, i - 1);
    }
}

/// Index of the first queue entry with the given id, by scanning.
fn find_index(list: &Vec<PlayItem>, id: usize) -> (r: Option<usize>)
    ensures
        match r {
            Some(i) => i < list@.len() && find_id(list@, id) == Some(i as int),
            None => find_id(list@, id) is None,
        },
{
    let mut i: usize = 0;
    while i < list.len()
        invariant
            i <= list@.len(),
            forall|j: int| 0 <= j < i ==> (#[trigger] list@[j]).id != id,
        decreases list@.len() - i,
    {
        if list[i].id == id {
            proof {
                lemma_find_id_complete(list@, id, i as int);
            }
            return Some(i);
        }
        i = i + 1;
    }
    proof {
        lemma_find_id_none(list@, id);
    }
    None
}

/// Whether some queue entry carries the given id, by scanning.
fn list_has_id(list: &Vec<PlayItem>, id: usize) -> (r: bool)
    ensures
        r == has_id(list@, id),
{
    let mut i: usize = 0;
    while i < list.len()
        invariant
            i <= list@.len(),
            forall|j: int| 0 <= j < i ==> (#[trigger] list@[j]).id != id,
        decreases list@.len() - i,
    {
        if list[i].id == id {
            return true;
        }
        i = i + 1;
    }
    false
}

/// The queue after appending only those incoming tracks whose id is new.
pub open spec fn append_new(base: Seq<PlayItem>, items: Seq<PlayItem>) -> Seq<PlayItem>
    decreases items.len(),
{
    if items.len() == 0 {
        base
    } else {
        let b2 = if has_id(base, items[0].id) {
            base
        } else {
            base.push(items[0])
        };
        append_new(b2, items.drop_first())
    }
}

impl Player {
    /// Take over or extend the queue. Replacing forgets the failed set and
    /// drops the cursor when it runs past the new end; appending keeps both
    /// and adds only tracks whose id is not queued yet. Entering either way
    /// in Random mode reshuffles.
    pub fn on_play_list(&mut self, items: Vec<PlayItem>, op: PlayListOP)
        requires
            old(self).wf(),
        ensures
            final(self).wf(),
            ({
                let base = match op {
                    PlayListOP::Replace => items@,
                    PlayListOP::Append => append_new(old(self).list@, items@),
                };
                &&& final(self).list@.to_multiset() == base.to_multiset()
                &&& !(old(self).play_mode is Random) ==> final(self).list@ == base
            }),
            (op is Replace ==> forall|x: usize| !final(self).bad.spec_contains(x)),
            (op is Append ==> final(self).bad == old(self).bad),
            (op is Replace ==> final(self).selected == (match old(self).selected {
                Some(i) => if i < items@.len() {
                    Some(i)
                } else {
                    None
                },
                None => None,
            })),
            (op is Append ==> final(self).selected == old(self).selected),
            final(self).state == old(self).state,
            final(self).current == old(self).current,
            final(self).offset == old(self).offset,
            final(self).play_mode == old(self).play_mode,
            final(self).volume == old(self).volume,
            final(self).lyrics == old(self).lyrics,
    {
        match op {
            PlayListOP::Replace => {
                self.bad.clear();
                let ghost n = items@.len();
                self.list = items;
                self.selected = match self.selected {
                    Some(i) => if i < self.list.len() {
                        Some(i)
                    } else {
                        None
                    },
                    None => None,
                };
            },
            PlayListOP::Append => {
                let ghost items0 = items@;
                let ghost base0 = self.list@;
                let mut items = items;
                while items.len() > 0
                    invariant
                        append_new(base0, items0) == append_new(self.list@, items@),
                        self.list@.len() >= base0.len(),
                        old(self).wf(),
                        self.bad == old(self).bad,
                        self.selected == old(self).selected,
                        self.state == old(self).state,
                        self.current == old(self).current,
                        self.offset == old(self).offset,
                        self.play_mode == old(self).play_mode,
                        self.volume == old(self).volume,
                        self.lyrics == old(self).lyrics,
                        self.list_index == old(self).list_index,
                        base0 == old(self).list@,
                    decreases items@.len(),
                {
                    let ghost items_pre = items@;
                    let it = items.remove(0);
                    proof {
                        assert(items@ =~= items_pre.drop_first());
                    }
                    if !list_has_id(&self.list, it.id) {
                        self.list.push(it);
                    }
                }
                proof {
                    assert(append_new(self.list@, items@) == self.list@);
                }
            },
        }
        if matches!(self.play_mode, PlayMode::Random) {
            shuffle_items(&mut self.list);
            // A reshuffle may move the cursor's track, so the cursor only
            // survives when it still lands inside the queue.
            self.selected = match self.selected {
                Some(i) => if i < self.list.len() {
                    Some(i)
                } else {
                    None
                },
                None => None,
            };
        }
        proof {
            self.list@.to_multiset_ensures();
            old(self).list@.to_multiset_ensures();
        }
    }

    /// A track started playing: record it, forgive it, parse and broadcast
    /// its lyric text, move the cursor onto it, reset the elapsed offset.
    pub fn on_play(&mut self, id: usize, lyric_text: &str) -> (ly: Vec<Lyric>)
        requires
            old(self).wf(),
        ensures
            final(self).wf(),
            lyric_views(final(self).lyrics@) == parse_lyrics(lyric_text@),
            ly@ == final(self).lyrics@,
            final(self).offset == 0,
            (match final(self).state {
                PlayState::Play(pid, t) => pid == id && t@ == lyric_text@,
                _ => false,
            }),
            forall|x: usize|
                final(self).bad.spec_contains(x) == (old(self).bad.spec_contains(x) && x != id),
            (match find_id(old(self).list@, id) {
                Some(j) => final(self).selected == Some(j as usize) && final(self).list_index == j
                    && (match final(self).current {
                    Some(c) => item_like(c, old(self).list@[j]),
                    None => false,
                }),
                None => final(self).selected == old(self).selected && final(self).current == old(
                    self,
                ).current && final(self).list_index == old(self).list_index,
            }),
            final(self).list == old(self).list,
            final(self).play_mode == old(self).play_mode,
            final(self).volume == old(self).volume,
    {
        self.state = PlayState::Play(id, String::from_str(lyric_text));
        self.bad.remove(id);
        self.lyrics = parse_lyric(lyric_text);
        match find_index(&self.list, id) {
            Some(j) => {
                self.current = Some(clone_item(&self.list[j]));
                self.selected = Some(j);
                self.list_index = j;
            },
            None => {},
        }
        self.offset = 0;
        clone_lyrics(&self.lyrics)
    }

    /// A track failed: mark it for the session and advance past it.
    pub fn on_failed(&mut self, id: usize) -> (r: Option<usize>)
        requires
            old(self).wf(),
        ensures
            final(self).wf(),
            (match final(self).state {
                PlayState::Failed(i) => i == id,
                _ => false,
            }),
            forall|x: usize|
                final(self).bad.spec_contains(x) == (old(self).bad.spec_contains(x) || x == id),
            r == advance_result(
                final(self).list@,
                final(self).bad,
                old(self).play_mode,
                old(self).selected,
                false,
            ),
            final(self).list@.to_multiset() == old(self).list@.to_multiset(),
            !(old(self).play_mode is Random) ==> final(self).list == old(self).list,
            final(self).current == old(self).current,
            final(self).offset == old(self).offset,
            final(self).selected == old(self).selected,
            final(self).play_mode == old(self).play_mode,
            final(self).volume == old(self).volume,
            final(self).lyrics == old(self).lyrics,
    {
        self.state = PlayState::Failed(id);
        self.bad.insert(id);
        self.play_next(false)
    }

    /// Record a playback state the sink reported (started, stopped, idle).
    pub fn set_state(&mut self, s: PlayState)
        ensures
            final(self).state == s,
            final(self).current == old(self).current,
            final(self).offset == old(self).offset,
            final(self).list == old(self).list,
            final(self).selected == old(self).selected,
            final(self).list_index == old(self).list_index,
            final(self).play_mode == old(self).play_mode,
            final(self).volume == old(self).volume,
            final(self).lyrics == old(self).lyrics,
            final(self).bad == old(self).bad,
    {
        self.state = s;
    }

    /// Record an externally reported elapsed offset, in seconds.
    pub fn on_offset(&mut self, secs: u64)
        ensures
            final(self).offset == secs,
            final(self).state == old(self).state,
            final(self).current == old(self).current,
            final(self).list == old(self).list,
            final(self).selected == old(self).selected,
            final(self).list_index == old(self).list_index,
            final(self).play_mode == old(self).play_mode,
            final(self).volume == old(self).volume,
            final(self).lyrics == old(self).lyrics,
            final(self).bad == old(self).bad,
    {
        self.offset = secs;
    }

    /// One second of playback passed. While playing, the offset runs up to
    /// the track's duration and is broadcast; reaching the end advances.
    pub fn on_tick(&mut self) -> (r: TickOut)
        requires
            old(self).wf(),
        ensures
            final(self).wf(),
            !(old(self).state is Start && old(self).current is Some) ==> *final(self) == *old(self)
                && r.offset_event is None && !r.ended && r.advance is None,
            (match old(self).current {
                Some(c) => old(self).state is Start ==> {
                    let dur = c.dt / 1000;
                    &&& (old(self).offset < dur ==> final(self).offset == old(self).offset + 1
                        && r.offset_event == Some(final(self).offset))
                    &&& (old(self).offset >= dur ==> final(self).offset == old(self).offset
                        && r.offset_event is None)
                    &&& r.ended == (final(self).offset == dur)
                    &&& (r.ended ==> r.advance == advance_result(
                        final(self).list@,
                        old(self).bad,
                        old(self).play_mode,
                        old(self).selected,
                        false,
                    ) && final(self).list@.to_multiset() == old(self).list@.to_multiset()
                        && (!(old(self).play_mode is Random) ==> final(self).list == old(
                        self,
                    ).list))
                    &&& (!r.ended ==> r.advance is None && final(self).list == old(self).list)
                    &&& final(self).state == old(self).state
                    &&& final(self).current == old(self).current
                    &&& final(self).selected == old(self).selected
                    &&& final(self).bad == old(self).bad
                    &&& final(self).lyrics == old(self).lyrics
                    &&& final(self).volume == old(self).volume
                    &&& final(self).play_mode == old(self).play_mode
                },
                None => true,
            }),
    {
        if !matches!(self.state, PlayState::Start) {
            return TickOut { offset_event: None, ended: false, advance: None };
        }
        let dur = match &self.current {
            Some(c) => c.dt / 1000,
            None => {
                return TickOut { offset_event: None, ended: false, advance: None };
            },
        };
        let mut offset_event: Option<u64> = None;
        if self.offset < dur {
            self.offset = self.offset + 1;
            offset_event = Some(self.offset);
        }
        let ended = self.offset == dur;
        let advance = if ended {
            self.play_next(false)
        } else {
            None
        };
        TickOut { offset_event, ended, advance }
    }

    /// Seek by a signed number of seconds, clamped to the track's length;
    /// the returned offset is handed to the sink. Nothing to seek without a
    /// current track.
    pub fn change_t(&mut self, delta: i64) -> (r: Option<u64>)
        requires
            old(self).wf(),
            delta != i64::MIN,
        ensures
            final(self).wf(),
            old(self).current is None ==> *final(self) == *old(self) && r is None,
            (match old(self).current {
                Some(c) => {
                    let dur = c.dt / 1000;
                    let target = old(self).offset + delta;
                    &&& final(self).offset == (if target < 0 {
                        0int
                    } else if target > dur {
                        dur as int
                    } else {
                        target
                    })
                    &&& r == Some(final(self).offset)
                    &&& final(self).state == old(self).state
                    &&& final(self).current == old(self).current
                    &&& final(self).list == old(self).list
                    &&& final(self).selected == old(self).selected
                    &&& final(self).bad == old(self).bad
                    &&& final(self).lyrics == old(self).lyrics
                    &&& final(self).volume == old(self).volume
                    &&& final(self).play_mode == old(self).play_mode
                },
                None => true,
            }),
    {
        let dur = match &self.current {
            Some(c) => c.dt / 1000,
            None => {
                return None;
            },
        };
        let cur = self.offset;
        let new_offset: u64;
        if delta >= 0 {
            let d = delta as u64;
            if cur >= dur || dur - cur <= d {
                new_offset = dur;
            } else {
                new_offset = cur + d;
            }
        } else {
            let d = (-delta) as u64;
            let down = if cur <= d {
                0
            } else {
                cur - d
            };
            new_offset = if down > dur {
                dur
            } else {
                down
            };
        }
        self.offset = new_offset;
        Some(new_offset)
    }

    /// Set the volume, clamped to full scale.
    pub fn set_volume(&mut self, v: u32)
        requires
            old(self).wf(),
        ensures
            final(self).wf(),
            final(self).volume == (if v > 1000 { 1000u32 } else { v }),
            final(self).state == old(self).state,
            final(self).current == old(self).current,
            final(self).offset == old(self).offset,
            final(self).list == old(self).list,
            final(self).selected == old(self).selected,
            final(self).play_mode == old(self).play_mode,
            final(self).lyrics == old(self).lyrics,
            final(self).bad == old(self).bad,
    {
        self.volume = if v > 1000 {
            1000
        } else {
            v
        };
    }

    /// One volume step up, clamped to full scale; returns the new volume.
    pub fn volume_up(&mut self) -> (r: u32)
        requires
            old(self).wf(),
        ensures
            final(self).wf(),
            final(self).volume == (if old(self).volume + 100 > 1000 {
                1000u32
            } else {
                (old(self).volume + 100) as u32
            }),
            r == final(self).volume,
            final(self).state == old(self).state,
            final(self).offset == old(self).offset,
            final(self).list == old(self).list,
            final(self).bad == old(self).bad,
    {
        self.volume = if self.volume + 100 > 1000 {
            1000
        } else {
            self.volume + 100
        };
        self.volume
    }

    /// One volume step down, stopping at silence; returns the new volume.
    pub fn volume_down(&mut self) -> (r: u32)
        requires
            old(self).wf(),
        ensures
            final(self).wf(),
            final(self).volume == (if old(self).volume >= 100 {
                (old(self).volume - 100) as u32
            } else {
                0u32
            }),
            r == final(self).volume,
            final(self).state == old(self).state,
            final(self).offset == old(self).offset,
            final(self).list == old(self).list,
            final(self).bad == old(self).bad,
    {
        self.volume = if self.volume >= 100 {
            self.volume - 100
        } else {
            0
        };
        self.volume
    }
}


// ---------------------------------------------------------------------------
// The track-start flow
// ---------------------------------------------------------------------------

use crate::ui::tip::{Msg, SimpleMsg, Tip};

/// The steps of starting a track, in the order the playback task performs
/// them; the I/O between steps is the task's.
#[derive(Debug, PartialEq, Eq, Structural, Clone, Copy)]
pub enum StartStep {
    /// Fetch the lyric (cached per track).
    FetchLyric,
    /// Ask whether the audio file is already on disk.
    CheckCache,
    /// Resolve a playable URL.
    ResolveUrl,
    /// Download the audio file.
    Download,
    /// Load the local file into the sink.
    LoadFile,
    /// Announce the playing track and its lyric.
    Announce,
    /// The start failed: mark the track and advance.
    Abort,
}

/// The decision table of the flow: a cached file skips the resolve and
/// download steps, and any failure aborts the start.
pub fn start_next(cur: StartStep, ok: bool, cached: bool) -> (r: StartStep)
    ensures
        r == (match cur {
            StartStep::FetchLyric => if ok {
                StartStep::CheckCache
            } else {
                StartStep::Abort
            },
            StartStep::CheckCache => if cached {
                StartStep::LoadFile
            } else {
                StartStep::ResolveUrl
            },
            StartStep::ResolveUrl => if ok {
                StartStep::Download
            } else {
                StartStep::Abort
            },
            StartStep::Download => if ok {
                StartStep::LoadFile
            } else {
                StartStep::Abort
            },
            StartStep::LoadFile => if ok {
                StartStep::Announce
            } else {
                StartStep::Abort
            },
            StartStep::Announce => StartStep::Announce,
            StartStep::Abort => StartStep::Abort,
        }),
{
    match cur {
        StartStep::FetchLyric => if ok {
            StartStep::CheckCache
        } else {
            StartStep::Abort
        },
        StartStep::CheckCache => if cached {
            StartStep::LoadFile
        } else {
            StartStep::ResolveUrl
        },
        StartStep::ResolveUrl => if ok {
            StartStep::Download
        } else {
            StartStep::Abort
        },
        StartStep::Download => if ok {
            StartStep::LoadFile
        } else {
            StartStep::Abort
        },
        StartStep::LoadFile => if ok {
            StartStep::Announce
        } else {
            StartStep::Abort
        },
        StartStep::Announce => StartStep::Announce,
        StartStep::Abort => StartStep::Abort,
    }
}

/// The error tip the task broadcasts when a step fails, shown three seconds.
pub fn error_tip(what: &str, err: &str) -> (r: Tip)
    ensures
        r.msg@ == "[error]"@ + what@ + ": "@ + err@,
        r.typ == crate::ui::tip::Type::normal(3000u64),
{
    let mut m = String::from_str("[error]");
    m.append(what);
    m.append(": ");
    m.append(err);
    proof {
        assert(m@ =~= "[error]"@ + what@ + ": "@ + err@);
    }
    let ghost mm = m@;
    let r = Msg(m.as_str(), 3000);
    r
}

/// The short notices around a download, shown one second.
pub fn download_started_tip() -> (r: Tip)
    ensures
        r.msg@ == "start down"@,
        r.typ == crate::ui::tip::Type::normal(1000u64),
{
    SimpleMsg("start down", 1000)
}

pub fn download_done_tip() -> (r: Tip)
    ensures
        r.msg@ == "down ok"@,
        r.typ == crate::ui::tip::Type::normal(1000u64),
{
    SimpleMsg("down ok", 1000)
}

// ---------------------------------------------------------------------------
// Advance laws
// ---------------------------------------------------------------------------

/// An advance never picks a failed track, and picks one from the queue.
pub proof fn lemma_advance_result_skips_failed(
    list: Seq<PlayItem>,
    bad: FailedSet,
    mode: PlayMode,
    selected: Option<usize>,
    first: bool,
)
    requires
        match selected {
            Some(i) => i < list.len(),
            None => true,
        },
    ensures
        match advance_result(list, bad, mode, selected, first) {
            Some(id) => !bad.spec_contains(id) && has_id(list, id),
            None => true,
        },
{
    if list.len() > 0 {
        match mode {
            PlayMode::SingleLoop => {
                let idx = match selected {
                    Some(i) => i as int,
                    None => 0int,
                };
                if !bad.spec_contains(list[idx].id) {
                    assert(list[idx].id == list[idx].id);
                }
            },
            PlayMode::Single => {
                if first {
                    lemma_advance_skips_failed(ids_of(list), bad, 0, list.len());
                    lemma_ids_of_has_id(list);
                }
            },
            _ => {
                lemma_advance_skips_failed(
                    ids_of(list),
                    bad,
                    advance_start(selected, first),
                    list.len(),
                );
                lemma_ids_of_has_id(list);
            },
        }
    }
}

proof fn lemma_ids_of_has_id(list: Seq<PlayItem>)
    ensures
        forall|id: usize| ids_of(list).contains(id) ==> has_id(list, id),
{
    assert forall|id: usize| ids_of(list).contains(id) implies has_id(list, id) by {
        let j = choose|j: int| 0 <= j < ids_of(list).len() && ids_of(list)[j] == id;
        assert(list[j].id == id);
    }
}

/// In SingleLoop mode an advance replays the selected track while it has
/// not failed, and stalls (no new request) once it has.
pub proof fn lemma_single_loop_replays(
    list: Seq<PlayItem>,
    bad: FailedSet,
    selected: Option<usize>,
    first: bool,
)
    requires
        list.len() > 0,
        match selected {
            Some(i) => i < list.len(),
            None => true,
        },
    ensures
        ({
            let idx = match selected {
                Some(i) => i as int,
                None => 0int,
            };
            advance_result(list, bad, PlayMode::SingleLoop, selected, first) == (
            if bad.spec_contains(list[idx].id) {
                Option::<usize>::None
            } else {
                Option::<usize>::Some(list[idx].id)
            })
        }),
{
}

/// A bounded advance in Order or Random mode finds a track exactly when
/// some queued track has not failed: a fully failed queue reports nothing
/// playable instead of scanning forever.
pub proof fn lemma_advance_result_complete(
    list: Seq<PlayItem>,
    bad: FailedSet,
    mode: PlayMode,
    selected: Option<usize>,
)
    requires
        list.len() > 0,
        mode is Order || mode is Random,
        match selected {
            Some(i) => i < list.len(),
            None => true,
        },
    ensures
        advance_result(list, bad, mode, selected, false) is Some <==> exists|j: int|
            0 <= j < list.len() && !bad.spec_contains((#[trigger] list[j]).id),
{
    let ids = ids_of(list);
    let start = advance_start(selected, false);
    lemma_advance_complete(ids, bad, start);
    assert forall|j: int| 0 <= j < list.len() && !bad.spec_contains((#[trigger] list[j]).id)
        implies exists|k: int| 0 <= k < ids.len() && !bad.spec_contains(#[trigger] ids[k]) by {
        assert(ids[j] == list[j].id);
    }
    assert forall|k: int| 0 <= k < ids.len() && !bad.spec_contains(#[trigger] ids[k]) implies
        exists|j: int| 0 <= j < list.len() && !bad.spec_contains((#[trigger] list[j]).id) by {
        assert(list[k].id == ids[k]);
    }
}

} // verus!
