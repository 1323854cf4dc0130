//! The segment window engine: which segments of a media playlist stay, and
//! how far the media sequence number moves on.

use crate::playlist::{MediaDocument, Segment, Timeline};
use vstd::prelude::*;

verus! {

/// The play time of the segments of `s` from place `from` to the end.
pub open spec fn tail_duration(s: Seq<Segment>, from: int) -> int
    decreases s.len() - from,
{
    if 0 <= from < s.len() {
        s[from].duration + tail_duration(s, from + 1)
    } else {
        0
    }
}

/// The first place at or after `from` from which the segments to the end play
/// for no longer than `limit`.
pub open spec fn first_fit(s: Seq<Segment>, limit: u64, from: int) -> int
    decreases s.len() - from,
{
    if 0 <= from < s.len() && tail_duration(s, from) > limit {
        first_fit(s, limit, from + 1)
    } else {
        from
    }
}

/// Where the trailing window of `limit` seconds begins: the first place from
/// which the segments to the end play for no longer than `limit`.
pub open spec fn window_start(s: Seq<Segment>, limit: u64) -> int {
    first_fit(s, limit, 0)
}

/// The first place of the range asked for.
pub open spec fn range_start(start: Option<u64>) -> int {
    match start {
        Some(a) => a as int,
        None => 0,
    }
}

impl Timeline {
    /// The place after the last of the range asked for.
    pub open spec fn range_end(self, end: Option<u64>) -> int {
        match end {
            Some(b) => b as int,
            None => self.segments.len() as int,
        }
    }

    /// Whether the range asked for lies within the segments.
    pub open spec fn holds_range(self, start: Option<u64>, end: Option<u64>) -> bool {
        range_start(start) <= self.range_end(end) <= self.segments.len()
    }

    /// The timeline cut down to its trailing window of `seconds` seconds: the
    /// segments before the window are dropped and the sequence number moves on
    /// by their count. Without a limit the timeline stays as it is.
    pub open spec fn trailing_window(self, seconds: Option<u64>) -> Timeline {
        match seconds {
            Some(limit) => {
                let from = window_start(self.segments, limit);
                Timeline {
                    media_sequence: self.media_sequence + from,
                    segments: self.segments.skip(from),
                }
            },
            None => self,
        }
    }

    /// The timeline cut down to the segments from `start` up to `end`, `end`
    /// not included, for a range that lies within the segments. The sequence
    /// number moves on by the count of the segments that are dropped.
    pub open spec fn range(self, start: Option<u64>, end: Option<u64>) -> Timeline {
        let from = range_start(start);
        let to = self.range_end(end);
        Timeline {
            media_sequence: self.media_sequence + (self.segments.len() - (to - from)),
            segments: self.segments.subrange(from, to),
        }
    }
}

/// The play time to the end does not grow as the starting place moves on.
pub proof fn lemma_tail_duration_falls(s: Seq<Segment>, a: int, b: int)
    requires
        0 <= a <= b,
    ensures
        tail_duration(s, a) >= tail_duration(s, b) >= 0,
    decreases s.len() - a,
{
    if b >= s.len() {
        if a < s.len() {
            lemma_tail_duration_falls(s, a + 1, b);
        }
    } else if a < b {
        lemma_tail_duration_falls(s, a + 1, b);
    } else {
        lemma_tail_duration_falls(s, a + 1, b + 1);
    }
}

/// The window begins at `at` where the segments from `at` fit the limit and
/// those from the place before do not.
pub proof fn lemma_window_start_is(s: Seq<Segment>, limit: u64, at: int)
    requires
        0 <= at <= s.len(),
        tail_duration(s, at) <= limit,
        at > 0 ==> tail_duration(s, at - 1) > limit,
    ensures
        window_start(s, limit) == at,
{
    lemma_first_fit_is(s, limit, at, 0);
}

proof fn lemma_first_fit_is(s: Seq<Segment>, limit: u64, at: int, from: int)
    requires
        0 <= from <= at <= s.len(),
        tail_duration(s, at) <= limit,
        at > 0 ==> tail_duration(s, at - 1) > limit,
    ensures
        first_fit(s, limit, from) == at,
    decreases at - from,
{
    if from < at {
        lemma_tail_duration_falls(s, from, at - 1);
        lemma_first_fit_is(s, limit, at, from + 1);
    }
}

/// The window begins within the segments, what it holds fits the limit, and
/// no longer tail of the segments does.
pub proof fn lemma_window_start_fits(s: Seq<Segment>, limit: u64)
    ensures
        0 <= window_start(s, limit) <= s.len(),
        tail_duration(s, window_start(s, limit)) <= limit,
        forall|k: int| 0 <= k < window_start(s, limit) ==> tail_duration(s, k) > limit,
{
    lemma_first_fit_fits(s, limit, 0);
}

proof fn lemma_first_fit_fits(s: Seq<Segment>, limit: u64, from: int)
    requires
        0 <= from <= s.len(),
    ensures
        from <= first_fit(s, limit, from) <= s.len(),
        tail_duration(s, first_fit(s, limit, from)) <= limit,
        forall|k: int| from <= k < first_fit(s, limit, from) ==> tail_duration(s, k) > limit,
    decreases s.len() - from,
{
    if from < s.len() && tail_duration(s, from) > limit {
        lemma_first_fit_fits(s, limit, from + 1);
    }
}

/// The sequence number moves on by the count of the segments that leave. A
/// trailing window drops segments from the front only, and so does a range
/// that reaches the end: there the count is that of the segments dropped in
/// front of what stays.
pub proof fn lemma_sequence_follows_front(
    t: Timeline,
    seconds: Option<u64>,
    start: Option<u64>,
    end: Option<u64>,
)
    ensures
        ({
            let w = t.trailing_window(seconds);
            let dropped = t.segments.len() - w.segments.len();
            &&& 0 <= dropped <= t.segments.len()
            &&& w.media_sequence - t.media_sequence == dropped
            &&& w.segments == t.segments.skip(dropped)
        }),
        t.holds_range(start, end) ==> ({
            let r = t.range(start, end);
            let dropped = t.segments.len() - r.segments.len();
            &&& 0 <= dropped <= t.segments.len()
            &&& r.media_sequence - t.media_sequence == dropped
            &&& t.range_end(end) == t.segments.len() ==> dropped == range_start(start)
                && r.segments == t.segments.skip(dropped)
        }),
{
    match seconds {
        Some(limit) => {
            lemma_window_start_fits(t.segments, limit);
        },
        None => {
            assert(t.segments.skip(0) == t.segments);
        },
    }
}

/// With nothing asked for, both operations leave the timeline as it is.
pub proof fn lemma_nothing_asked_same_timeline(t: Timeline)
    ensures
        t.trailing_window(None) == t,
        t.holds_range(None, None),
        t.range(None, None) == t,
{
    assert(t.segments.subrange(0, t.segments.len() as int) == t.segments);
}

/// A sequence number that can move on by the count of all segments can move
/// on by the count of those that a trailing window, a range, or the two in
/// turn drop.
pub proof fn lemma_room_for_all_is_enough(
    t: Timeline,
    seconds: Option<u64>,
    start: Option<u64>,
    end: Option<u64>,
)
    requires
        t.media_sequence + t.segments.len() <= u64::MAX,
    ensures
        t.trailing_window(seconds).media_sequence <= u64::MAX,
        t.holds_range(start, end) ==> t.range(start, end).media_sequence <= u64::MAX,
        t.trailing_window(seconds).holds_range(start, end) ==> t.trailing_window(seconds).range(
            start,
            end,
        ).media_sequence <= u64::MAX,
{
    lemma_sequence_follows_front(t, seconds, start, end);
    lemma_sequence_follows_front(t.trailing_window(seconds), seconds, start, end);
}

/// A range that does not lie within the segments of a media playlist.
#[derive(Clone, Copy, Debug, PartialEq, Eq, Structural)]
pub struct RangeError {
    /// The first place asked for.
    pub start: u64,
    /// The place after the last asked for.
    pub end: u64,
    /// The count of the segments.
    pub len: usize,
}

/// A media playlist under the segment window engine. Each operation changes
/// the playlist in place and hands the engine back, so that calls can be
/// chained.
pub struct Media {
    pub playlist: MediaDocument,
}

impl View for Media {
    type V = Timeline;

    open spec fn view(&self) -> Timeline {
        self.playlist@
    }
}

impl Media {
    /// Whether the media sequence number can move on by the count of all
    /// segments. Where it can, every operation may be called.
    pub fn has_room(&self) -> (room: bool)
        ensures
            room == (self@.media_sequence + self@.segments.len() <= u64::MAX),
    {
        self.playlist.segments.len() as u64 <= u64::MAX - self.playlist.media_sequence
    }

    /// Keeps the trailing window of `seconds` seconds: going back from the
    /// end, the segments stay as long as their play time added up is no more
    /// than `seconds`. The segments before them are dropped and the media
    /// sequence number moves on by their count. Without a limit nothing
    /// changes.
    pub fn filter_dvr(&mut self, seconds: Option<u64>) -> (r: &mut Self)
        requires
            old(self)@.trailing_window(seconds).media_sequence <= u64::MAX,
        ensures
            r@ == old(self)@.trailing_window(seconds),
            seconds is None ==> *r == *old(self),
            *final(self) == *final(r),
    {
        if let Some(limit) = seconds {
            let n = self.playlist.segments.len();
            let ghost before = self.playlist.segments@;
            let mut from: usize = n;
            let mut played: u64 = 0;
            while from > 0
                invariant
                    self.playlist.segments@ == before,
                    n == before.len(),
                    0 <= from <= n,
                    played == tail_duration(before, from as int),
                    played <= limit,
                ensures
                    0 <= from <= n,
                    tail_duration(before, from as int) <= limit,
                    from > 0 ==> tail_duration(before, from - 1) > limit,
                decreases from,
            {
                let d = self.playlist.segments[from - 1].duration;
                if d > limit - played {
                    break ;
                }
                played = played + d;
                from = from - 1;
            }
            proof {
                lemma_window_start_is(before, limit, from as int);
            }
            let kept = self.playlist.segments.split_off(from);
            self.playlist.segments = kept;
            self.playlist.media_sequence = self.playlist.media_sequence + from as u64;
            assert(self@.segments =~= before.skip(from as int));
        }
        self
    }

    /// Keeps the segments from `start` up to `end`, `end` not included; a
    /// bound that is not given stands for the first segment or for the end.
    /// The media sequence number moves on by the count of the segments that
    /// are dropped. A range that does not lie within the segments is an error,
    /// and the playlist stays as it is.
    pub fn trim(&mut self, start: Option<u64>, end: Option<u64>) -> (r: Result<
        &mut Self,
        RangeError,
    >)
        requires
            old(self)@.holds_range(start, end) ==> old(self)@.range(start, end).media_sequence
                <= u64::MAX,
        ensures
            match r {
                Ok(m) => {
                    &&& old(self)@.holds_range(start, end)
                    &&& m@ == old(self)@.range(start, end)
                    &&& start is None && end is None ==> m@ == old(self)@
                    &&& *final(self) == *final(m)
                },
                Err(e) => {
                    &&& !old(self)@.holds_range(start, end)
                    &&& e.start == range_start(start)
                    &&& e.end == old(self)@.range_end(end)
                    &&& e.len == old(self)@.segments.len()
                    &&& *final(self) == *old(self)
                },
            },
    {
        let n = self.playlist.segments.len();
        let from: u64 = match start {
            Some(a) => a,
            None => 0,
        };
        let to: u64 = match end {
            Some(b) => b,
            None => n as u64,
        };
        if from <= to && to <= n as u64 {
            let ghost before = self.playlist.segments@;
            self.playlist.segments.truncate(to as usize);
            let kept = self.playlist.segments.split_off(from as usize);
            self.playlist.segments = kept;
            let dropped = n - (to as usize - from as usize);
            self.playlist.media_sequence = self.playlist.media_sequence + dropped as u64;
            assert(self@.segments =~= before.subrange(from as int, to as int));
            proof {
                lemma_nothing_asked_same_timeline(old(self)@);
            }
            Ok(self)
        } else {
            Err(RangeError { start: from, end: to, len: n })
        }
    }
}

} // verus!
