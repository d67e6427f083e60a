use wdr_maus::daily::{Daily, Date, Job, Weekday};
use wdr_maus::media::{Captions, MediaFormat, MediaResource, MediaResources, TrackerData, WdrMedia};

fn date(year: i32, month: u8, day: u8) -> Date {
    Date { year, month, day }
}

fn sample_item(id: &str) -> WdrMedia {
    let resource = MediaResource {
        media_format: MediaFormat::Mp4,
        video: "https://edjopato.de".to_string(),
        sl_video: None,
        ad_video: None,
    };
    WdrMedia {
        tracker_data: TrackerData {
            id: id.to_string(),
            air_time: Some("t1".to_string()),
            title: "title".to_string(),
        },
        media_resource: MediaResources {
            preview_image: None,
            dflt: resource.clone(),
            alt: resource,
            captions_hash: Captions { srt: None },
        },
    }
}

#[test]
fn stale_record_resets_to_fresh_state() {
    let today = date(2024, 5, 2);
    let mut yesterdays = Daily::empty_for(date(2024, 5, 1));
    yesterdays.mark_successful(Job::AktuelleCheckup);
    yesterdays.mark_error(sample_item("x"));

    let resolved = Daily::resolve(today, Some(yesterdays));
    assert_eq!(today, resolved.day);
    assert!(resolved.errors.is_empty());
    assert_eq!(None, resolved.next_due(Weekday::Monday, 4));
    // A fresh record leaves every gated job available again.
    assert_eq!(
        Some(Job::AktuelleCheckup),
        resolved.next_due(Weekday::Monday, 19)
    );
}

#[test]
fn todays_record_is_kept() {
    let today = date(2024, 5, 2);
    let mut record = Daily::empty_for(today);
    record.mark_successful(Job::SachgeschichteMorning);

    let resolved = Daily::resolve(today, Some(record));
    assert_eq!(
        Some(Job::AktuelleCheckup),
        resolved.next_due(Weekday::Monday, 19)
    );
    assert_eq!(
        Some(Job::SachgeschichteEvening),
        resolved.next_due(Weekday::Monday, 16)
    );
}

#[test]
fn completed_checkup_is_not_returned_again() {
    let mut daily = Daily::empty_for(date(2024, 5, 2));
    daily.mark_successful(Job::AktuelleCheckup);
    // Hour 20 on a weekday: the checkup is done, so the next threshold rule
    // that matches wins instead.
    assert_eq!(
        Some(Job::SachgeschichteMorning),
        daily.next_due(Weekday::Monday, 20)
    );
    daily.mark_successful(Job::SachgeschichteMorning);
    assert_eq!(
        Some(Job::SachgeschichteEvening),
        daily.next_due(Weekday::Monday, 20)
    );
    daily.mark_successful(Job::SachgeschichteEvening);
    assert_eq!(None, daily.next_due(Weekday::Monday, 20));
}

#[test]
fn sunday_window_fires_regardless_of_completions() {
    let mut daily = Daily::empty_for(date(2024, 5, 5));
    daily.mark_successful(Job::AktuelleSunday);
    daily.mark_successful(Job::AktuelleCheckup);
    assert_eq!(Some(Job::AktuelleSunday), daily.next_due(Weekday::Sunday, 8));
    assert_eq!(Some(Job::AktuelleSunday), daily.next_due(Weekday::Sunday, 12));
    // Outside the window the ordinary rules apply again.
    assert_eq!(
        Some(Job::SachgeschichteMorning),
        daily.next_due(Weekday::Sunday, 13)
    );
    assert_eq!(None, daily.next_due(Weekday::Sunday, 4));
}

#[test]
fn marking_successful_twice_keeps_set_semantics() {
    let mut once = Daily::empty_for(date(2024, 5, 2));
    once.mark_successful(Job::AktuelleCheckup);
    let mut twice = Daily::empty_for(date(2024, 5, 2));
    twice.mark_successful(Job::AktuelleCheckup);
    twice.mark_successful(Job::AktuelleCheckup);
    assert_eq!(once.jobs, twice.jobs);
    assert!(twice.errors.is_empty());
    assert_eq!(
        Some(Job::SachgeschichteMorning),
        twice.next_due(Weekday::Monday, 20)
    );
}

#[test]
fn errored_items_are_remembered_until_success() {
    let mut daily = Daily::empty_for(date(2024, 5, 2));
    let item = sample_item("broken");
    assert!(!daily.is_error(&item));
    daily.mark_error(item.clone());
    assert!(daily.is_error(&item));
    assert!(!daily.is_error(&sample_item("other")));
    // Success clears the errored set.
    daily.mark_successful(Job::SachgeschichteMorning);
    assert!(!daily.is_error(&item));
}

#[test]
fn clock_reading_is_plausible() {
    let today = wdr_maus::daily::today();
    assert!((1..=12).contains(&today.month));
    assert!((1..=31).contains(&today.day));
    let daily = Daily::empty_for(today);
    let _ = daily.get_next();
}
