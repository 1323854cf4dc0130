//! What one request asks of a playlist, and the order in which the filters
//! answer it.

use crate::master::{at_frame_rate, closest_first, index_first, within_bandwidth, Master};
use crate::master::lemma_nothing_asked_nothing_changed;
use crate::media::{lemma_nothing_asked_same_timeline, lemma_sequence_follows_front};
use crate::media::{range_start, Media, RangeError};
use crate::playlist::{FrameRate, Rendition, Timeline};
use vstd::prelude::*;

verus! {

/// The options of a request. Each one that is absent asks for nothing.
#[derive(Clone, Copy, Debug)]
pub struct Params {
    /// Least bandwidth of the renditions to keep.
    pub min_bitrate: Option<u64>,
    /// Greatest bandwidth of the renditions to keep.
    pub max_bitrate: Option<u64>,
    /// Frame rate of the renditions to keep.
    pub rate: Option<FrameRate>,
    /// Trailing window to keep, in seconds.
    pub dvr: Option<u64>,
    /// First segment to keep.
    pub trim_start: Option<u64>,
    /// The segment after the last to keep.
    pub trim_end: Option<u64>,
    /// Place of the rendition to exchange with the first.
    pub variant_index: Option<u64>,
    /// Bandwidth that the first rendition is to be closest to.
    pub closest_bandwidth: Option<u64>,
}

impl Params {
    /// Whether nothing is asked for.
    pub open spec fn asks_nothing(self) -> bool {
        &&& self.min_bitrate is None
        &&& self.max_bitrate is None
        &&& self.rate is None
        &&& self.dvr is None
        &&& self.trim_start is None
        &&& self.trim_end is None
        &&& self.variant_index is None
        &&& self.closest_bandwidth is None
    }
}

impl Default for Params {
    fn default() -> (params: Params)
        ensures
            params.asks_nothing(),
    {
        Params {
            min_bitrate: None,
            max_bitrate: None,
            rate: None,
            dvr: None,
            trim_start: None,
            trim_end: None,
            variant_index: None,
            closest_bandwidth: None,
        }
    }
}

/// The renditions that answer a request: those within the bandwidth range,
/// of these those at the frame rate, then the one at the index exchanged with
/// the first, then the one closest to the bandwidth moved to the front.
pub open spec fn master_answer(s: Seq<Rendition>, params: Params) -> Seq<Rendition> {
    closest_first(
        index_first(
            at_frame_rate(within_bandwidth(s, params.min_bitrate, params.max_bitrate), params.rate),
            params.variant_index,
        ),
        params.closest_bandwidth,
    )
}

/// The timeline after the first step of a request, the trailing window.
pub open spec fn media_window(t: Timeline, params: Params) -> Timeline {
    t.trailing_window(params.dvr)
}

/// The timeline that answers a request: the range asked for, taken of the
/// trailing window. It means something where the window holds the range.
pub open spec fn media_answer(t: Timeline, params: Params) -> Timeline {
    media_window(t, params).range(params.trim_start, params.trim_end)
}

/// A request that asks for nothing gets the playlist back as it was.
pub proof fn lemma_empty_request(s: Seq<Rendition>, t: Timeline, params: Params)
    requires
        params.asks_nothing(),
    ensures
        master_answer(s, params) == s,
        media_window(t, params).holds_range(params.trim_start, params.trim_end),
        media_answer(t, params) == t,
{
    lemma_nothing_asked_nothing_changed(s);
    lemma_nothing_asked_same_timeline(t);
}

/// Over the two steps of a request the sequence number moves on by the count
/// of the segments that leave.
pub proof fn lemma_request_moves_sequence_by_count(t: Timeline, params: Params)
    requires
        media_window(t, params).holds_range(params.trim_start, params.trim_end),
    ensures
        media_answer(t, params).media_sequence - t.media_sequence == t.segments.len()
            - media_answer(t, params).segments.len(),
        media_answer(t, params).segments.len() <= t.segments.len(),
{
    lemma_sequence_follows_front(t, params.dvr, params.trim_start, params.trim_end);
    lemma_sequence_follows_front(
        media_window(t, params),
        params.dvr,
        params.trim_start,
        params.trim_end,
    );
}

/// Answers a request on a master playlist: the bandwidth filter, the frame
/// rate filter, the choice by index and the choice by closest bandwidth, in
/// this order.
pub fn modify_master(params: &Params, master: &mut Master)
    ensures
        final(master)@ == master_answer(old(master)@, *params),
{
    master.filter_bandwidth(params.min_bitrate, params.max_bitrate).filter_fps(
        params.rate,
    ).first_variant_by_index(params.variant_index).first_variant_by_closest_bandwidth(
        params.closest_bandwidth,
    );
}

/// Answers a request on a media playlist: the trailing window, then the
/// range. Where the window does not hold the range, the range is the error
/// and the playlist is left cut down to the window.
pub fn modify_media(params: &Params, media: &mut Media) -> (r: Result<(), RangeError>)
    requires
        media_window(old(media)@, *params).media_sequence <= u64::MAX,
        media_window(old(media)@, *params).holds_range(params.trim_start, params.trim_end)
            ==> media_answer(old(media)@, *params).media_sequence <= u64::MAX,
    ensures
        match r {
            Ok(_) => {
                &&& media_window(old(media)@, *params).holds_range(
                    params.trim_start,
                    params.trim_end,
                )
                &&& final(media)@ == media_answer(old(media)@, *params)
            },
            Err(e) => {
                &&& !media_window(old(media)@, *params).holds_range(
                    params.trim_start,
                    params.trim_end,
                )
                &&& final(media)@ == media_window(old(media)@, *params)
                &&& e.start == range_start(params.trim_start)
                &&& e.end == media_window(old(media)@, *params).range_end(params.trim_end)
                &&& e.len == media_window(old(media)@, *params).segments.len()
            },
        },
{
    match media.filter_dvr(params.dvr).trim(params.trim_start, params.trim_end) {
        Ok(_) => Ok(()),
        Err(e) => Err(e),
    }
}

} // verus!
