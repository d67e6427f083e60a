use wdr_maus::media::{normalize_url, Captions, MediaFormat, MediaResource, MediaResources};
use wdr_maus::publish::{public_caption, usable_caption, RetryPolicy};
use wdr_maus::scrape::Topic;

fn resource(format: MediaFormat, video: &str, sl: Option<&str>) -> MediaResource {
    MediaResource {
        media_format: format,
        video: video.to_string(),
        sl_video: sl.map(|s| s.to_string()),
        ad_video: None,
    }
}

fn resources(
    dflt: MediaResource,
    alt: MediaResource,
    srt: Option<&str>,
) -> MediaResources {
    MediaResources {
        preview_image: None,
        dflt,
        alt,
        captions_hash: Captions { srt: srt.map(|s| s.to_string()) },
    }
}

#[test]
fn direct_file_variant_is_preferred() {
    let r = resources(
        resource(MediaFormat::Hls, "https://example.com/stream.m3u8", Some("https://example.com/sl-hls")),
        resource(MediaFormat::Mp4, "https://example.com/file.mp4", Some("https://example.com/sl-mp4")),
        None,
    );
    assert_eq!("https://example.com/file.mp4", r.get_video().as_str());
    assert_eq!(Some(&"https://example.com/sl-mp4".to_string()), r.get_sl_video());
}

#[test]
fn streaming_fallback_when_alternate_is_adaptive() {
    let r = resources(
        resource(MediaFormat::Hls, "https://example.com/dflt.m3u8", Some("https://example.com/sl-dflt")),
        resource(MediaFormat::Hls, "https://example.com/alt.m3u8", None),
        None,
    );
    assert_eq!("https://example.com/dflt.m3u8", r.get_video().as_str());
    assert_eq!(Some(&"https://example.com/sl-dflt".to_string()), r.get_sl_video());
}

#[test]
fn score_counts_captions_and_sign_language() {
    let none = resources(
        resource(MediaFormat::Hls, "v", None),
        resource(MediaFormat::Hls, "v", None),
        None,
    );
    assert_eq!(0, none.score());
    let captions_only = resources(
        resource(MediaFormat::Hls, "v", None),
        resource(MediaFormat::Hls, "v", None),
        Some("https://example.com/c.srt"),
    );
    assert_eq!(1, captions_only.score());
    let sl_only = resources(
        resource(MediaFormat::Hls, "v", Some("https://example.com/sl")),
        resource(MediaFormat::Hls, "v", None),
        None,
    );
    assert_eq!(1, sl_only.score());
    let both = resources(
        resource(MediaFormat::Hls, "v", Some("https://example.com/sl")),
        resource(MediaFormat::Hls, "v", None),
        Some("https://example.com/c.srt"),
    );
    assert_eq!(2, both.score());
}

#[test]
fn protocol_relative_urls_get_https() {
    assert_eq!(
        "https://example.com/a.jpg",
        normalize_url("//example.com/a.jpg")
    );
    assert_eq!(
        "https://example.com/a.jpg",
        normalize_url("https://example.com/a.jpg")
    );
    assert_eq!("/local/path", normalize_url("/local/path"));
    assert_eq!("", normalize_url(""));
}

#[test]
fn caption_with_deleted_path_is_dropped() {
    assert_eq!(
        None,
        usable_caption(Some("https://example.com/captions/deleted".to_string()))
    );
    let kept = "https://example.com/captions/show.srt".to_string();
    assert_eq!(Some(kept.clone()), usable_caption(Some(kept)));
    assert_eq!(None, usable_caption(None));
}

#[test]
fn captions_mentioning_deleted_elsewhere_are_kept() {
    let kept = "https://example.com/deleted/still-there.srt".to_string();
    assert_eq!(Some(kept.clone()), usable_caption(Some(kept)));
}

#[test]
fn caption_text_lists_air_time_and_topic() {
    assert_eq!(
        "Title\n07.03.2021 #AktuelleSendung",
        public_caption("Title", &Some("07.03.2021".to_string()), Topic::AktuelleSendung)
    );
    assert_eq!(
        "Title\n#Zukunft",
        public_caption("Title", &None, Topic::Zukunft)
    );
}

#[test]
fn announcement_update_policy_allows_two_retries() {
    let policy = RetryPolicy::announcement_update();
    assert_eq!(60_000, policy.delay_millis);
    assert!(policy.should_retry(0));
    assert!(policy.should_retry(1));
    assert!(!policy.should_retry(2));
}
