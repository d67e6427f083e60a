//! The per-wake-cycle orchestration: drive the scrape pipeline one page at
//! a time, filter each page's items through the dedup store and today's
//! errored set, and hand each remaining item out to be published. The
//! caller performs the fetches and publishes; this state machine decides,
//! and it alone decides, what happens next. A publish failure aborts the
//! whole cycle; for the first-match-only job kinds the cycle finishes
//! after the first successfully published item.

use vstd::prelude::*;

use crate::daily::{spec_is_error, Daily, Job};
use crate::downloaded::{spec_was_downloaded, Downloaded};
use crate::media::{TrackerData, WdrMedia};
use crate::scrape::{Scrape, ScrapeError, Scraperesult, Topic};

verus! {

/// What the caller must do next.
pub enum Step {
    /// Fetch this page and report the page result via `supply_page`.
    FetchPage(Topic, String),
    /// Attempt to publish this item and report the outcome via
    /// `publish_succeeded` or `publish_failed`.
    Publish(Scraperesult),
    /// The cycle is complete without an unrecovered failure: mark the job
    /// successful and stop.
    Finish(Job),
    /// A publish failure ended the cycle early: stop and report once.
    Abort,
}

#[derive(Debug, Clone, Copy, PartialEq, Eq, Structural)]
pub enum CycleState {
    Running,
    Finished,
    Aborted,
}

/// An item the cycle passes over without publishing: it already counts as
/// published, or its identity already failed today.
pub open spec fn spec_skippable(
    store: Seq<WdrMedia>,
    errors: Seq<TrackerData>,
    item: Scraperesult,
) -> bool {
    spec_was_downloaded(store, item.media) || spec_is_error(errors, item.media.tracker_data)
}

/// One wake cycle: the job being run, the pages still to visit, and the
/// items of the current page not yet considered.
pub struct Cycle {
    pub job: Job,
    pub scrape: Scrape,
    pub pending: Vec<Scraperesult>,
    pub state: CycleState,
}

impl Cycle {
    /// A fresh cycle over an already-discovered pipeline.
    pub fn start(job: Job, scrape: Scrape) -> (c: Cycle)
        ensures
            c.job == job,
            c.scrape == scrape,
            c.pending@.len() == 0,
            c.state == CycleState::Running,
    {
        Cycle { job, scrape, pending: Vec::new(), state: CycleState::Running }
    }

    /// The next thing to do. Every item handed out for publishing is
    /// neither already published nor errored today; items are considered
    /// in page order; pages are fetched in reverse discovery order; and
    /// the cycle finishes only once the current page's items and all
    /// remaining pages are exhausted.
    pub fn next_step(&mut self, store: &Downloaded, daily: &Daily) -> (s: Step)
        ensures
            final (self).job == old(self).job,
            match s {
                Step::Publish(it) => {
                    &&& old(self).state == CycleState::Running
                    &&& final (self).state == CycleState::Running
                    &&& final (self).scrape == old(self).scrape
                    &&& !spec_was_downloaded(store.list@, it.media)
                    &&& !spec_is_error(daily.errors@, it.media.tracker_data)
                    &&& exists|k: int|
                        0 <= k < old(self).pending@.len() && it == old(self).pending@[k] && final (
                        self).pending@ =~= old(self).pending@.skip(k + 1) && forall|j: int|
                            0 <= j < k ==> spec_skippable(
                                store.list@,
                                daily.errors@,
                                #[trigger] old(self).pending@[j],
                            )
                },
                Step::FetchPage(t, u) => {
                    &&& old(self).state == CycleState::Running
                    &&& final (self).state == CycleState::Running
                    &&& forall|j: int|
                        0 <= j < old(self).pending@.len() ==> spec_skippable(
                            store.list@,
                            daily.errors@,
                            #[trigger] old(self).pending@[j],
                        )
                    &&& final (self).pending@.len() == 0
                    &&& old(self).scrape.links@.len() > 0
                    &&& t == old(self).scrape.links@.last().0
                    &&& u == old(self).scrape.links@.last().1
                    &&& final (self).scrape.links@ == old(self).scrape.links@.drop_last()
                },
                Step::Finish(j) => {
                    &&& j == old(self).job
                    &&& final (self).state == CycleState::Finished
                    &&& (old(self).state == CycleState::Finished || (old(self).state
                        == CycleState::Running && old(self).scrape.links@.len() == 0 && forall|
                        j: int,
                    |
                        0 <= j < old(self).pending@.len() ==> spec_skippable(
                            store.list@,
                            daily.errors@,
                            #[trigger] old(self).pending@[j],
                        )))
                },
                Step::Abort => old(self).state == CycleState::Aborted && *final (self) == *old(
                    self,
                ),
            },
    {
        match self.state {
            CycleState::Aborted => {
                return Step::Abort;
            },
            CycleState::Finished => {
                return Step::Finish(self.job);
            },
            CycleState::Running => {
            },
        }
        let ghost orig = self.pending@;
        let ghost mut consumed: int = 0;
        proof {
            assert(orig.skip(0) =~= orig);
        }
        while self.pending.len() > 0
            invariant
                self.state == CycleState::Running,
                old(self).state == CycleState::Running,
                self.job == old(self).job,
                self.scrape == old(self).scrape,
                orig == old(self).pending@,
                0 <= consumed <= orig.len(),
                self.pending@.len() == orig.len() - consumed,
                self.pending@ =~= orig.skip(consumed),
                forall|j: int|
                    0 <= j < consumed ==> spec_skippable(
                        store.list@,
                        daily.errors@,
                        #[trigger] orig[j],
                    ),
            decreases self.pending@.len(),
        {
            let ghost pb = self.pending@;
            let it = self.pending.remove(0);
            proof {
                assert(self.pending@ =~= pb.drop_first());
                assert(pb.first() == it);
                assert(orig.skip(consumed)[0] == orig[consumed]);
                assert(it == orig[consumed]);
                assert forall|t: int| 0 <= t < pb.drop_first().len() implies pb.drop_first()[t]
                    == orig.skip(consumed + 1)[t] by {
                    assert(pb.drop_first()[t] == pb[t + 1]);
                    assert(pb[t + 1] == orig.skip(consumed)[t + 1]);
                    assert(orig.skip(consumed)[t + 1] == orig[consumed + t + 1]);
                    assert(orig.skip(consumed + 1)[t] == orig[consumed + 1 + t]);
                }
                assert(pb.drop_first() =~= orig.skip(consumed + 1));
            }
            let published = store.was_downloaded(&it.media);
            let errored = daily.is_error(&it.media);
            if !published && !errored {
                proof {
                    let k = consumed;
                    assert(orig == old(self).pending@);
                    assert(0 <= k < old(self).pending@.len());
                    assert(it == old(self).pending@[k]);
                    assert(self.pending@ =~= old(self).pending@.skip(k + 1));
                    assert(forall|j: int|
                        0 <= j < k ==> spec_skippable(
                            store.list@,
                            daily.errors@,
                            #[trigger] old(self).pending@[j],
                        ));
                }
                return Step::Publish(it);
            }
            proof {
                assert(spec_skippable(store.list@, daily.errors@, orig[consumed]));
                consumed = consumed + 1;
            }
        }
        proof {
            assert(consumed == orig.len());
        }
        match self.scrape.pop_next() {
            Option::Some((t, u)) => Step::FetchPage(t, u),
            Option::None => {
                self.state = CycleState::Finished;
                Step::Finish(self.job)
            },
        }
    }

    /// Takes one page's result. A successful page queues its items in page
    /// order; a failed page is isolated: it queues nothing, and traversal
    /// goes on with the remaining pages.
    pub fn supply_page(&mut self, page: Result<Vec<Scraperesult>, ScrapeError>)
        ensures
            final (self).job == old(self).job,
            final (self).scrape == old(self).scrape,
            final (self).state == old(self).state,
            match page {
                Result::Ok(items) => final (self).pending == items,
                Result::Err(_) => final (self).pending@.len() == 0,
            },
    {
        match page {
            Result::Ok(items) => {
                self.pending = items;
            },
            Result::Err(_) => {
                self.pending = Vec::new();
            },
        }
    }

    /// Reports that an item was published: it is recorded in the dedup
    /// store at once, and a first-match-only job's cycle is thereby
    /// finished.
    pub fn publish_succeeded(&mut self, media: WdrMedia, store: &mut Downloaded)
        ensures
            final (self).job == old(self).job,
            final (self).scrape == old(self).scrape,
            final (self).pending == old(self).pending,
            final (self).state == (if old(self).job.spec_is_aktuelle() {
                old(self).state
            } else {
                CycleState::Finished
            }),
            final (store).list@.to_multiset() == old(store).list@.to_multiset().insert(media),
            crate::downloaded::spec_sorted(final (store).list@),
            spec_was_downloaded(final (store).list@, media),
            forall|m: WdrMedia|
                spec_was_downloaded(old(store).list@, m) ==> spec_was_downloaded(
                    final (store).list@,
                    m,
                ),
    {
        store.mark_downloaded(media);
        if !self.job.is_aktuelle() {
            self.state = CycleState::Finished;
        }
    }

    /// Reports that publishing an item failed: its identity is recorded as
    /// errored today, so it is not retried within the same day, and the
    /// cycle is aborted so the failure is reported once per cycle.
    pub fn publish_failed(&mut self, media: WdrMedia, daily: &mut Daily)
        ensures
            final (self).job == old(self).job,
            final (self).scrape == old(self).scrape,
            final (self).pending == old(self).pending,
            final (self).state == CycleState::Aborted,
            final (daily).day == old(daily).day,
            final (daily).jobs == old(daily).jobs,
            final (daily).errors@ == old(daily).errors@.push(media.tracker_data),
    {
        daily.mark_error(media);
        self.state = CycleState::Aborted;
    }
}

} // verus!
