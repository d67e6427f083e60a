use wdr_maus::daily::{Daily, Date, Job};
use wdr_maus::downloaded::Downloaded;
use wdr_maus::media::{Captions, MediaFormat, MediaResource, MediaResources, TrackerData, WdrMedia};
use wdr_maus::orchestrator::{Cycle, Step};
use wdr_maus::scrape::{Scrape, ScrapeError, Scraperesult, Topic};

fn item(id: &str, srt: bool) -> WdrMedia {
    let resource = MediaResource {
        media_format: MediaFormat::Mp4,
        video: "https://edjopato.de".to_string(),
        sl_video: None,
        ad_video: None,
    };
    WdrMedia {
        tracker_data: TrackerData {
            id: id.to_string(),
            air_time: Some("t1".to_string()),
            title: "title".to_string(),
        },
        media_resource: MediaResources {
            preview_image: None,
            dflt: resource.clone(),
            alt: resource,
            captions_hash: Captions {
                srt: if srt {
                    Some("https://edjopato.de/c.srt".to_string())
                } else {
                    None
                },
            },
        },
    }
}

fn found(topic: Topic, id: &str) -> Scraperesult {
    Scraperesult {
        topic,
        img: "https://example.com/img.jpg".to_string(),
        media: item(id, false),
    }
}

fn pipeline(urls: &[&str]) -> Scrape {
    Scrape::from_links(
        urls.iter()
            .map(|u| (Topic::Sachgeschichte, u.to_string()))
            .collect(),
    )
}

fn fresh_daily() -> Daily {
    Daily::empty_for(Date { year: 2024, month: 5, day: 2 })
}

#[test]
fn failed_page_is_isolated_and_both_good_pages_publish() {
    // Three discovered links; traversal visits them in reverse discovery
    // order and the middle page's failure does not end the cycle.
    let mut cycle = Cycle::start(Job::AktuelleCheckup, pipeline(&["l1", "l2", "l3"]));
    let mut store = Downloaded::from_list(vec![]);
    let mut daily = fresh_daily();
    let mut published = Vec::new();
    let mut fetched = Vec::new();

    loop {
        match cycle.next_step(&store, &daily) {
            Step::FetchPage(_, url) => {
                fetched.push(url.clone());
                let page = match url.as_str() {
                    "l3" => Ok(vec![found(Topic::Sachgeschichte, "three")]),
                    "l2" => Err(ScrapeError::NoVideos),
                    _ => Ok(vec![found(Topic::Sachgeschichte, "one")]),
                };
                cycle.supply_page(page);
            }
            Step::Publish(it) => {
                published.push(it.media.tracker_data.id.clone());
                cycle.publish_succeeded(it.media, &mut store);
            }
            Step::Finish(job) => {
                daily.mark_successful(job);
                break;
            }
            Step::Abort => panic!("no publish failed in this run"),
        }
    }

    assert_eq!(vec!["l3", "l2", "l1"], fetched);
    assert_eq!(vec!["three", "one"], published);
    assert_eq!(2, store.list.len());
}

#[test]
fn already_published_and_errored_items_are_skipped() {
    let mut cycle = Cycle::start(Job::AktuelleCheckup, pipeline(&["only"]));
    let store = Downloaded::from_list(vec![item("known", false)]);
    let mut daily = fresh_daily();
    daily.mark_error(item("broken", false));

    match cycle.next_step(&store, &daily) {
        Step::FetchPage(_, url) => assert_eq!("only", url),
        _ => panic!("expected a fetch"),
    }
    cycle.supply_page(Ok(vec![
        found(Topic::Sachgeschichte, "known"),
        found(Topic::Sachgeschichte, "broken"),
        found(Topic::Sachgeschichte, "new"),
    ]));
    match cycle.next_step(&store, &daily) {
        Step::Publish(it) => assert_eq!("new", it.media.tracker_data.id),
        _ => panic!("expected a publish"),
    }
}

#[test]
fn higher_quality_version_is_published_again() {
    let mut cycle = Cycle::start(Job::AktuelleCheckup, pipeline(&["only"]));
    let store = Downloaded::from_list(vec![item("a", false)]);
    let daily = fresh_daily();
    cycle.supply_page(Ok(vec![Scraperesult {
        topic: Topic::AktuelleSendung,
        img: "https://example.com/img.jpg".to_string(),
        media: item("a", true),
    }]));
    match cycle.next_step(&store, &daily) {
        Step::Publish(it) => assert_eq!(1, it.media.media_resource.score()),
        _ => panic!("the upgraded version must pass the dedup filter"),
    }
}

#[test]
fn first_match_job_stops_after_first_success() {
    let mut cycle = Cycle::start(Job::SachgeschichteMorning, pipeline(&["l1", "l2"]));
    let mut store = Downloaded::from_list(vec![]);
    let daily = fresh_daily();

    match cycle.next_step(&store, &daily) {
        Step::FetchPage(_, url) => assert_eq!("l2", url),
        _ => panic!("expected a fetch"),
    }
    cycle.supply_page(Ok(vec![
        found(Topic::Sachgeschichte, "x"),
        found(Topic::Sachgeschichte, "y"),
    ]));
    let media = match cycle.next_step(&store, &daily) {
        Step::Publish(it) => it.media,
        _ => panic!("expected a publish"),
    };
    cycle.publish_succeeded(media, &mut store);
    // The remaining item and the remaining page are not visited.
    match cycle.next_step(&store, &daily) {
        Step::Finish(job) => assert_eq!(Job::SachgeschichteMorning, job),
        _ => panic!("a first-match job finishes after one published item"),
    }
}

#[test]
fn publish_failure_aborts_the_cycle_and_marks_the_item() {
    let mut cycle = Cycle::start(Job::AktuelleCheckup, pipeline(&["l1"]));
    let mut store = Downloaded::from_list(vec![]);
    let mut daily = fresh_daily();

    match cycle.next_step(&store, &daily) {
        Step::FetchPage(..) => {}
        _ => panic!("expected a fetch"),
    }
    cycle.supply_page(Ok(vec![
        found(Topic::Sachgeschichte, "bad"),
        found(Topic::Sachgeschichte, "never-reached"),
    ]));
    let media = match cycle.next_step(&store, &daily) {
        Step::Publish(it) => it.media,
        _ => panic!("expected a publish"),
    };
    cycle.publish_failed(media, &mut daily);
    assert!(daily.is_error(&item("bad", false)));
    assert!(store.list.is_empty());
    match cycle.next_step(&store, &daily) {
        Step::Abort => {}
        _ => panic!("a publish failure ends the whole cycle"),
    }
}
