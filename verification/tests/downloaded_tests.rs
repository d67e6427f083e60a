use wdr_maus::downloaded::Downloaded;
use wdr_maus::media::{Captions, MediaFormat, MediaResource, MediaResources, TrackerData, WdrMedia};

fn resource(sl: bool) -> MediaResource {
    MediaResource {
        media_format: MediaFormat::Mp4,
        video: "https://edjopato.de".to_string(),
        sl_video: if sl {
            Some("https://edjopato.de".to_string())
        } else {
            None
        },
        ad_video: None,
    }
}

fn item(id: &str, sl: bool, srt: bool) -> WdrMedia {
    WdrMedia {
        tracker_data: TrackerData {
            id: id.to_string(),
            air_time: Some("42".to_string()),
            title: "42".to_string(),
        },
        media_resource: MediaResources {
            preview_image: None,
            dflt: resource(sl),
            alt: resource(false),
            captions_hash: Captions {
                srt: if srt {
                    Some("https://edjopato.de".to_string())
                } else {
                    None
                },
            },
        },
    }
}

fn a0() -> WdrMedia {
    item("a", false, false)
}

fn a1() -> WdrMedia {
    item("a", true, false)
}

fn a2() -> WdrMedia {
    item("a", true, true)
}

fn b() -> WdrMedia {
    item("b", false, false)
}

#[test]
fn score() {
    assert_eq!(0, a0().media_resource.score());
    assert_eq!(1, a1().media_resource.score());
    assert_eq!(2, a2().media_resource.score());
    assert_eq!(0, b().media_resource.score());
}

#[test]
fn empty_wasnt_downloaded() {
    let downloaded = Downloaded::from_list(vec![]);
    assert!(!downloaded.was_downloaded(&a0()));
    assert!(!downloaded.was_downloaded(&a1()));
    assert!(!downloaded.was_downloaded(&a2()));
    assert!(!downloaded.was_downloaded(&b()));
}

#[test]
fn a_differs_b() {
    let downloaded = Downloaded::from_list(vec![a0()]);
    assert!(downloaded.was_downloaded(&a0()));
    assert!(!downloaded.was_downloaded(&b()));

    let downloaded = Downloaded::from_list(vec![b()]);
    assert!(!downloaded.was_downloaded(&a0()));
    assert!(downloaded.was_downloaded(&b()));
}

#[test]
fn upgrade_a0() {
    let downloaded = Downloaded::from_list(vec![a0()]);
    assert!(downloaded.was_downloaded(&a0()));
    assert!(!downloaded.was_downloaded(&a1()));
    assert!(!downloaded.was_downloaded(&a2()));
    assert!(!downloaded.was_downloaded(&b()));
}

#[test]
fn upgrade_a1() {
    let downloaded = Downloaded::from_list(vec![a1()]);
    assert!(downloaded.was_downloaded(&a0()));
    assert!(downloaded.was_downloaded(&a1()));
    assert!(!downloaded.was_downloaded(&a2()));
    assert!(!downloaded.was_downloaded(&b()));
}

#[test]
fn upgrade_a2() {
    let downloaded = Downloaded::from_list(vec![a2()]);
    assert!(downloaded.was_downloaded(&a0()));
    assert!(downloaded.was_downloaded(&a1()));
    assert!(downloaded.was_downloaded(&a2()));
    assert!(!downloaded.was_downloaded(&b()));
}

#[test]
fn upgrade_a0_and_a1() {
    let downloaded = Downloaded::from_list(vec![a0(), a1()]);
    assert!(downloaded.was_downloaded(&a0()));
    assert!(downloaded.was_downloaded(&a1()));
    assert!(!downloaded.was_downloaded(&a2()));
    assert!(!downloaded.was_downloaded(&b()));
}

#[test]
fn upgrade_a0_and_a2() {
    let downloaded = Downloaded::from_list(vec![a0(), a2()]);
    assert!(downloaded.was_downloaded(&a0()));
    assert!(downloaded.was_downloaded(&a1()));
    assert!(downloaded.was_downloaded(&a2()));
    assert!(!downloaded.was_downloaded(&b()));
}

#[test]
fn upgrade_a1_and_a2() {
    let downloaded = Downloaded::from_list(vec![a1(), a2()]);
    assert!(downloaded.was_downloaded(&a0()));
    assert!(downloaded.was_downloaded(&a1()));
    assert!(downloaded.was_downloaded(&a2()));
    assert!(!downloaded.was_downloaded(&b()));
}

#[test]
fn recording_twice_keeps_both_entries() {
    let mut store = Downloaded::from_list(vec![]);
    store.mark_downloaded(item("a", false, false));
    store.mark_downloaded(item("a", true, false));
    assert_eq!(2, store.list.len());
    assert!(store.was_downloaded(&a1()));
    assert!(!store.was_downloaded(&a2()));
}

#[test]
fn lower_version_recorded_first_lets_upgrade_through() {
    let mut store = Downloaded::from_list(vec![b()]);
    store.mark_downloaded(a0());
    assert!(!store.was_downloaded(&a1()));

    let mut store = Downloaded::from_list(vec![b()]);
    store.mark_downloaded(a1());
    assert!(store.was_downloaded(&a0()));
}

#[test]
fn record_sorts_canonically() {
    let mut store = Downloaded::from_list(vec![b(), a1()]);
    store.mark_downloaded(a0());
    assert_eq!("a", store.list[0].tracker_data.id);
    assert_eq!("a", store.list[1].tracker_data.id);
    assert_eq!("b", store.list[2].tracker_data.id);
}
