use manifest_filter::{
    modify_master, modify_media, FrameRate, Master, MasterDocument, Media, MediaDocument, Params,
    RangeError, Rendition, Segment,
};

fn fps(rate: f64) -> FrameRate {
    FrameRate::from_bits(rate.to_bits())
}

fn request_master() -> Master {
    let entries: [(u64, Option<f64>); 6] = [
        (400, Some(30.0)),
        (900, Some(60.0)),
        (700, Some(60.0)),
        (500, Some(60.0)),
        (800, None),
        (2000, Some(60.0)),
    ];
    let variants = entries
        .iter()
        .map(|(bandwidth, rate)| Rendition {
            bandwidth: *bandwidth,
            frame_rate: rate.map(fps),
            source: m3u8_rs::VariantStream {
                bandwidth: *bandwidth,
                frame_rate: *rate,
                ..Default::default()
            },
        })
        .collect();
    Master {
        playlist: MasterDocument { variants },
    }
}

fn request_media(media_sequence: u64, durations: &[u64]) -> Media {
    let segments = durations
        .iter()
        .enumerate()
        .map(|(i, d)| Segment {
            duration: *d,
            source: m3u8_rs::MediaSegment {
                uri: format!("s{}", i),
                ..Default::default()
            },
        })
        .collect();
    Media {
        playlist: MediaDocument {
            media_sequence,
            segments,
        },
    }
}

fn left_bandwidths(master: &Master) -> Vec<u64> {
    master.playlist.variants.iter().map(|v| v.bandwidth).collect()
}

fn left_segments(media: &Media) -> Vec<String> {
    media
        .playlist
        .segments
        .iter()
        .map(|s| s.source.uri.clone())
        .collect()
}

#[test]
fn default_params_ask_nothing() {
    let params = Params::default();

    assert_eq!(params.min_bitrate, None);
    assert_eq!(params.max_bitrate, None);
    assert_eq!(params.rate, None);
    assert_eq!(params.dvr, None);
    assert_eq!(params.trim_start, None);
    assert_eq!(params.trim_end, None);
    assert_eq!(params.variant_index, None);
    assert_eq!(params.closest_bandwidth, None);
}

#[test]
fn empty_request_changes_nothing() {
    let params = Params::default();
    let mut master = request_master();
    let mut media = request_media(9, &[1, 2, 3]);

    modify_master(&params, &mut master);
    let outcome = modify_media(&params, &mut media);

    assert_eq!(left_bandwidths(&master), vec![400, 900, 700, 500, 800, 2000]);
    assert_eq!(outcome, Ok(()));
    assert_eq!(left_segments(&media), vec!["s0", "s1", "s2"]);
    assert_eq!(media.playlist.media_sequence, 9);
}

#[test]
fn master_request_applies_the_filters_in_order() {
    let params = Params {
        min_bitrate: Some(500),
        max_bitrate: Some(900),
        rate: Some(fps(60.0)),
        variant_index: Some(2),
        closest_bandwidth: Some(690),
        ..Params::default()
    };
    let mut master = request_master();

    modify_master(&params, &mut master);

    assert_eq!(left_bandwidths(&master), vec![700, 500, 900]);
}

#[test]
fn master_request_with_index_only() {
    let params = Params {
        variant_index: Some(5),
        ..Params::default()
    };
    let mut master = request_master();

    modify_master(&params, &mut master);

    assert_eq!(left_bandwidths(&master), vec![2000, 900, 700, 500, 800, 400]);
}

#[test]
fn media_request_takes_the_window_then_the_range() {
    let params = Params {
        dvr: Some(12),
        trim_start: Some(1),
        trim_end: Some(3),
        ..Params::default()
    };
    let mut media = request_media(100, &[4, 4, 4, 4, 4, 4]);

    let outcome = modify_media(&params, &mut media);

    assert_eq!(outcome, Ok(()));
    assert_eq!(left_segments(&media), vec!["s4", "s5"]);
    assert_eq!(media.playlist.media_sequence, 104);
}

#[test]
fn media_request_with_a_range_outside_the_window() {
    let params = Params {
        dvr: Some(12),
        trim_start: Some(2),
        trim_end: Some(5),
        ..Params::default()
    };
    let mut media = request_media(100, &[4, 4, 4, 4, 4, 4]);

    let outcome = modify_media(&params, &mut media);

    assert_eq!(outcome, Err(RangeError { start: 2, end: 5, len: 3 }));
    assert_eq!(left_segments(&media), vec!["s3", "s4", "s5"]);
    assert_eq!(media.playlist.media_sequence, 103);
}
