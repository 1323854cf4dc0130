//! The playlists as the filters see them: for each rendition and each segment
//! the numbers that a filter goes by, beside the parsed entry they were read
//! from, which no filter looks into.

use vstd::prelude::*;

verus! {

/// `m3u8_rs::VariantStream`, one parsed `EXT-X-STREAM-INF` entry. The filters
/// carry it along and never look inside.
#[verifier::external_type_specification]
#[verifier::external_body]
pub struct OutsideVariantStream(m3u8_rs::VariantStream);

/// `m3u8_rs::MediaSegment`, one parsed segment entry. The filters carry it
/// along and never look inside.
#[verifier::external_type_specification]
#[verifier::external_body]
pub struct OutsideMediaSegment(m3u8_rs::MediaSegment);

/// A frame rate, held as the bit pattern of the number that the playlist gives.
/// Two frame rates are the same when their bits are.
#[derive(Clone, Copy, Debug, PartialEq, Eq, Structural)]
pub struct FrameRate {
    pub bits: u64,
}

/// One rendition of a master playlist.
#[derive(Debug)]
pub struct Rendition {
    /// Peak bit rate, in bits per second.
    pub bandwidth: u64,
    /// Frame rate, where the playlist gives one.
    pub frame_rate: Option<FrameRate>,
    /// The parsed entry that this rendition stands for.
    pub source: m3u8_rs::VariantStream,
}

/// The renditions of a master playlist, in the order in which a player tries
/// them. Its view is the sequence of its renditions.
#[derive(Debug)]
pub struct MasterDocument {
    pub variants: Vec<Rendition>,
}

/// One segment of a media playlist.
#[derive(Debug)]
pub struct Segment {
    /// Play time in whole seconds.
    pub duration: u64,
    /// The parsed entry that this segment stands for.
    pub source: m3u8_rs::MediaSegment,
}

/// The segments of a media playlist in play order, and the media sequence
/// number of the first of them. Its view is a [`Timeline`].
#[derive(Debug)]
pub struct MediaDocument {
    pub media_sequence: u64,
    pub segments: Vec<Segment>,
}

/// A media playlist as a mathematical value: the segments in play order and
/// the media sequence number of the first of them, which is not bounded here.
pub struct Timeline {
    pub media_sequence: int,
    pub segments: Seq<Segment>,
}

impl View for MasterDocument {
    type V = Seq<Rendition>;

    open spec fn view(&self) -> Seq<Rendition> {
        self.variants@
    }
}

impl View for MediaDocument {
    type V = Timeline;

    open spec fn view(&self) -> Timeline {
        Timeline { media_sequence: self.media_sequence as int, segments: self.segments@ }
    }
}

impl FrameRate {
    /// The frame rate with the given bit pattern.
    pub fn from_bits(bits: u64) -> (rate: FrameRate)
        ensures
            rate.bits == bits,
    {
        FrameRate { bits }
    }

    /// The bit pattern of this frame rate.
    pub fn to_bits(&self) -> (bits: u64)
        ensures
            bits == self.bits,
    {
        self.bits
    }
}

} // verus!
