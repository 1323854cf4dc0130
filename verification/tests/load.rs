use manifest_filter::{load_master, load_media, master_of, media_of, Parsed};

const SMALL_MASTER: &str = "#EXTM3U
#EXT-X-VERSION:4
#EXT-X-STREAM-INF:BANDWIDTH=600000,RESOLUTION=384x216,FRAME-RATE=30
low.m3u8
#EXT-X-STREAM-INF:BANDWIDTH=1500000,RESOLUTION=1280x720,FRAME-RATE=59.94
high.m3u8
";

const SMALL_MEDIA: &str = "#EXTM3U
#EXT-X-VERSION:3
#EXT-X-TARGETDURATION:10
#EXT-X-MEDIA-SEQUENCE:7
#EXTINF:9.5,
first.ts
#EXTINF:10,
second.ts
#EXT-X-ENDLIST
";

#[test]
fn load_master_reads_a_master_playlist() {
    let playlist = load_master(SMALL_MASTER.as_bytes()).unwrap();

    assert_eq!(playlist.version, Some(4));
    assert_eq!(playlist.variants.len(), 2);
    assert_eq!(playlist.variants[0].bandwidth, 600000);
    assert_eq!(playlist.variants[0].uri, "low.m3u8");
    assert_eq!(playlist.variants[1].bandwidth, 1500000);
    assert_eq!(playlist.variants[1].frame_rate, Some(59.94));
}

#[test]
fn load_master_refuses_a_media_playlist() {
    let error = load_master(SMALL_MEDIA.as_bytes()).unwrap_err();

    assert_eq!(error, "must be a master playlist");
}

#[test]
fn load_media_reads_a_media_playlist() {
    let playlist = load_media(SMALL_MEDIA.as_bytes()).unwrap();

    assert_eq!(playlist.media_sequence, 7);
    assert_eq!(playlist.segments.len(), 2);
    assert_eq!(playlist.segments[0].uri, "first.ts");
    assert_eq!(playlist.segments[0].duration, 9.5);
    assert_eq!(playlist.segments[1].duration, 10.0);
    assert!(playlist.end_list);
}

#[test]
fn load_media_refuses_a_master_playlist() {
    let error = load_media(SMALL_MASTER.as_bytes()).unwrap_err();

    assert_eq!(error, "must be a media playlist");
}

#[test]
fn load_gives_the_message_of_the_parser() {
    let text = b"this is no playlist";
    let expected = m3u8_rs::parse_playlist(text).unwrap_err().to_string();

    let from_master = load_master(text).unwrap_err();
    let from_media = load_media(text).unwrap_err();

    assert_eq!(from_master, expected);
    assert_eq!(from_media, expected);
    assert!(!expected.is_empty());
    assert_ne!(expected, "must be a master playlist");
    assert_ne!(expected, "must be a media playlist");
}

#[test]
fn load_of_the_same_text_gives_the_same_outcome() {
    let texts: [&[u8]; 4] = [
        SMALL_MASTER.as_bytes(),
        SMALL_MEDIA.as_bytes(),
        b"",
        b"#EXTM3U\n#EXT-X-STREAM-INF:BANDWIDTH=oops\nx.m3u8\n",
    ];
    for text in texts {
        let first = load_master(text);
        let second = load_master(text);
        assert_eq!(first.is_ok(), second.is_ok());
        assert_eq!(first.err(), second.err());
    }
}

#[test]
fn master_of_each_outcome() {
    let master = m3u8_rs::MasterPlaylist {
        version: Some(9),
        ..Default::default()
    };
    let media = m3u8_rs::MediaPlaylist {
        media_sequence: 12,
        ..Default::default()
    };

    assert_eq!(master_of(Parsed::Master(master.clone())), Ok(master));
    assert_eq!(
        master_of(Parsed::Media(media)),
        Err("must be a master playlist".to_string())
    );
    assert_eq!(
        master_of(Parsed::Invalid("bad tag".to_string())),
        Err("bad tag".to_string())
    );
}

#[test]
fn media_of_each_outcome() {
    let master = m3u8_rs::MasterPlaylist {
        version: Some(9),
        ..Default::default()
    };
    let media = m3u8_rs::MediaPlaylist {
        media_sequence: 12,
        ..Default::default()
    };

    assert_eq!(media_of(Parsed::Media(media.clone())), Ok(media));
    assert_eq!(
        media_of(Parsed::Master(master)),
        Err("must be a media playlist".to_string())
    );
    assert_eq!(
        media_of(Parsed::Invalid(String::new())),
        Err(String::new())
    );
}
