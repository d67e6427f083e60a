use wdr_maus::probe::{ProbeError, VideoStats};

const SAMPLE: &str = "Input #0, mov,mp4, from 'video.mp4':\n  Duration: 00:07:42.48, start: 0.000000, bitrate: 1208 kb/s\n  Stream #0:0: Video: h264, yuv420p, 1280x720 [SAR 1:1 DAR 16:9], 30 fps\n";

#[test]
fn parses_duration_and_resolution() {
    let stats = VideoStats::parse(SAMPLE).unwrap();
    assert_eq!(7 * 60 + 42, stats.duration);
    assert_eq!(1280, stats.width);
    assert_eq!(720, stats.height);
}

#[test]
fn duration_uses_hours_minutes_seconds() {
    let report = "Duration: 01:02:03.99, x\n , 640x480 [y";
    let stats = VideoStats::parse(report).unwrap();
    assert_eq!(((1 * 60) + 2) * 60 + 3, stats.duration);
    assert_eq!(640, stats.width);
    assert_eq!(480, stats.height);
}

#[test]
fn missing_duration_is_reported() {
    let report = "no timing here, 640x480 [x";
    assert_eq!(ProbeError::DurationNotFound, VideoStats::parse(report).unwrap_err());
}

#[test]
fn missing_resolution_is_reported() {
    let report = "Duration: 00:00:01.00, and nothing else";
    assert_eq!(ProbeError::ResolutionNotFound, VideoStats::parse(report).unwrap_err());
}

#[test]
fn oversized_dimension_is_refused() {
    let report = "Duration: 00:00:01.00, 99999999999x10 [x";
    assert_eq!(ProbeError::DimensionTooLarge, VideoStats::parse(report).unwrap_err());
}

#[test]
fn first_resolution_token_wins() {
    let report = "Duration: 00:00:05.00, junk, 320x240 [a], 640x480 [b]";
    let stats = VideoStats::parse(report).unwrap();
    assert_eq!(320, stats.width);
    assert_eq!(240, stats.height);
}
