//! Filters for HLS playlists.
//!
//! A master playlist lists the renditions of one title. [`Master`] keeps the
//! renditions of a bandwidth range or of one frame rate, and brings a chosen
//! rendition to the front. A media playlist lists the segments of one
//! rendition. [`Media`] keeps a trailing window of segments or a range of them,
//! and moves the media sequence number along with what it drops.
//!
//! Every function states what it does over the view of the playlist, a `Seq` of
//! renditions or a [`Timeline`], and Verus proves it. Reading a playlist from
//! text is left to `m3u8_rs`: [`load_master`] and [`load_media`] call its parser.

pub mod load;
pub mod master;
pub mod media;
pub mod params;
pub mod playlist;

pub use load::{load_master, load_media, master_of, media_of, ParseOutcome, Parsed};
pub use master::Master;
pub use media::{Media, RangeError};
pub use params::{modify_master, modify_media, Params};
pub use playlist::{FrameRate, MasterDocument, MediaDocument, Rendition, Segment, Timeline};
