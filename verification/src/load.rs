//! Reading a playlist from text. The parser is that of `m3u8_rs`; what this
//! module adds is the choice between the two kinds of playlist.

use vstd::prelude::*;

verus! {

/// `m3u8_rs::MasterPlaylist`, a parsed master playlist. Nothing here looks
/// inside.
#[verifier::external_type_specification]
#[verifier::external_body]
pub struct OutsideMasterPlaylist(m3u8_rs::MasterPlaylist);

/// `m3u8_rs::MediaPlaylist`, a parsed media playlist. Nothing here looks
/// inside.
#[verifier::external_type_specification]
#[verifier::external_body]
pub struct OutsideMediaPlaylist(m3u8_rs::MediaPlaylist);

/// What parsing a text comes to, without the playlist itself.
pub enum ParseOutcome {
    /// The text is a master playlist.
    Master,
    /// The text is a media playlist.
    Media,
    /// The text is no playlist; the parser's message says why.
    Invalid(Seq<char>),
}

/// What `m3u8_rs::parse_playlist` makes of `content`: the kind of playlist
/// that it finds, or the message of its error.
pub uninterp spec fn parse_outcome(content: Seq<u8>) -> ParseOutcome;

/// A parsed text.
pub enum Parsed {
    Master(m3u8_rs::MasterPlaylist),
    Media(m3u8_rs::MediaPlaylist),
    Invalid(String),
}

impl Parsed {
    /// What the parse came to, without the playlist itself.
    pub open spec fn outcome(self) -> ParseOutcome {
        match self {
            Parsed::Master(_) => ParseOutcome::Master,
            Parsed::Media(_) => ParseOutcome::Media,
            Parsed::Invalid(message) => ParseOutcome::Invalid(message@),
        }
    }
}

/// The message for a media playlist given where a master playlist is due.
pub open spec fn master_expected() -> Seq<char> {
    "must be a master playlist"@
}

/// The message for a master playlist given where a media playlist is due.
pub open spec fn media_expected() -> Seq<char> {
    "must be a media playlist"@
}

/// Calls `m3u8_rs::parse_playlist` on `content`. The parser decides from the
/// tags of the text which kind of playlist it is, and fails with an error
/// where the text is none; the error is kept as its message. Trusted: which
/// of the three it is, and the message, depend on `content` alone.
#[verifier::external_body]
fn parse_playlist(content: &[u8]) -> (parsed: Parsed)
    ensures
        parsed.outcome() == parse_outcome(content@),
{
    match m3u8_rs::parse_playlist(content) {
        Ok((_, m3u8_rs::Playlist::MasterPlaylist(playlist))) => Parsed::Master(playlist),
        Ok((_, m3u8_rs::Playlist::MediaPlaylist(playlist))) => Parsed::Media(playlist),
        Err(e) => Parsed::Invalid(e.to_string()),
    }
}

/// The master playlist of a parsed text, or the reason why there is none.
pub fn master_of(parsed: Parsed) -> (r: Result<m3u8_rs::MasterPlaylist, String>)
    ensures
        match parsed {
            Parsed::Master(playlist) => r == Ok::<m3u8_rs::MasterPlaylist, String>(playlist),
            Parsed::Media(_) => r matches Err(e) && e@ == master_expected(),
            Parsed::Invalid(message) => r matches Err(e) && e@ == message@,
        },
{
    match parsed {
        Parsed::Master(playlist) => Ok(playlist),
        Parsed::Media(_) => Err("must be a master playlist".to_owned()),
        Parsed::Invalid(message) => Err(message),
    }
}

/// The media playlist of a parsed text, or the reason why there is none.
pub fn media_of(parsed: Parsed) -> (r: Result<m3u8_rs::MediaPlaylist, String>)
    ensures
        match parsed {
            Parsed::Media(playlist) => r == Ok::<m3u8_rs::MediaPlaylist, String>(playlist),
            Parsed::Master(_) => r matches Err(e) && e@ == media_expected(),
            Parsed::Invalid(message) => r matches Err(e) && e@ == message@,
        },
{
    match parsed {
        Parsed::Media(playlist) => Ok(playlist),
        Parsed::Master(_) => Err("must be a media playlist".to_owned()),
        Parsed::Invalid(message) => Err(message),
    }
}

/// Parses `content` as a master playlist. A media playlist and a text that
/// does not parse are both errors, each with its message.
pub fn load_master(content: &[u8]) -> (r: Result<m3u8_rs::MasterPlaylist, String>)
    ensures
        match parse_outcome(content@) {
            ParseOutcome::Master => r is Ok,
            ParseOutcome::Media => r matches Err(e) && e@ == master_expected(),
            ParseOutcome::Invalid(message) => r matches Err(e) && e@ == message,
        },
{
    master_of(parse_playlist(content))
}

/// Parses `content` as a media playlist. A master playlist and a text that
/// does not parse are both errors, each with its message.
pub fn load_media(content: &[u8]) -> (r: Result<m3u8_rs::MediaPlaylist, String>)
    ensures
        match parse_outcome(content@) {
            ParseOutcome::Media => r is Ok,
            ParseOutcome::Master => r matches Err(e) && e@ == media_expected(),
            ParseOutcome::Invalid(message) => r matches Err(e) && e@ == message,
        },
{
    media_of(parse_playlist(content))
}

} // verus!
