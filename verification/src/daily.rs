//! The daily scheduler: one record per calendar day of which recurring jobs
//! already ran and which items failed today. The record is discarded
//! unconditionally at date rollover, which is what makes every job run at
//! most once per day across process restarts. Deciding the next due job is
//! a pure ordered-priority query over the wall-clock hour and weekday.

use vstd::prelude::*;

use chrono::Datelike;
use chrono::Timelike;

use crate::media::{same_identity, TrackerData, WdrMedia};

verus! {

/// A calendar date in local time.
#[derive(Debug, Clone, Copy, PartialEq, Eq, Structural)]
pub struct Date {
    pub year: i32,
    pub month: u8,
    pub day: u8,
}

/// The closed set of recurring jobs.
#[derive(Debug, Clone, Copy, PartialEq, Eq, Structural)]
pub enum Job {
    AktuelleSunday,
    AktuelleCheckup,
    SachgeschichteMorning,
    SachgeschichteEvening,
}

/// A day of the week, as the local clock reports it.
#[derive(Debug, Clone, Copy, PartialEq, Eq, Structural)]
pub enum Weekday {
    Monday,
    Tuesday,
    Wednesday,
    Thursday,
    Friday,
    Saturday,
    Sunday,
}

/// The set of jobs completed today, one flag per job kind: set semantics,
/// marking a job twice is the same as marking it once.
#[derive(Debug, Clone, Copy, PartialEq, Eq, Structural)]
pub struct JobSet {
    pub aktuelle_sunday: bool,
    pub aktuelle_checkup: bool,
    pub sachgeschichte_morning: bool,
    pub sachgeschichte_evening: bool,
}

impl JobSet {
    /// The set with no completed jobs.
    pub open spec fn spec_empty() -> JobSet {
        JobSet {
            aktuelle_sunday: false,
            aktuelle_checkup: false,
            sachgeschichte_morning: false,
            sachgeschichte_evening: false,
        }
    }

    pub open spec fn spec_has(self, job: Job) -> bool {
        match job {
            Job::AktuelleSunday => self.aktuelle_sunday,
            Job::AktuelleCheckup => self.aktuelle_checkup,
            Job::SachgeschichteMorning => self.sachgeschichte_morning,
            Job::SachgeschichteEvening => self.sachgeschichte_evening,
        }
    }

    pub open spec fn spec_insert(self, job: Job) -> JobSet {
        match job {
            Job::AktuelleSunday => JobSet { aktuelle_sunday: true, ..self },
            Job::AktuelleCheckup => JobSet { aktuelle_checkup: true, ..self },
            Job::SachgeschichteMorning => JobSet { sachgeschichte_morning: true, ..self },
            Job::SachgeschichteEvening => JobSet { sachgeschichte_evening: true, ..self },
        }
    }

    pub fn empty() -> (r: JobSet)
        ensures
            r == JobSet::spec_empty(),
    {
        JobSet {
            aktuelle_sunday: false,
            aktuelle_checkup: false,
            sachgeschichte_morning: false,
            sachgeschichte_evening: false,
        }
    }

    pub fn has(&self, job: Job) -> (r: bool)
        ensures
            r == self.spec_has(job),
    {
        match job {
            Job::AktuelleSunday => self.aktuelle_sunday,
            Job::AktuelleCheckup => self.aktuelle_checkup,
            Job::SachgeschichteMorning => self.sachgeschichte_morning,
            Job::SachgeschichteEvening => self.sachgeschichte_evening,
        }
    }

    pub fn insert(&mut self, job: Job)
        ensures
            *final (self) == old(self).spec_insert(job),
    {
        match job {
            Job::AktuelleSunday => self.aktuelle_sunday = true,
            Job::AktuelleCheckup => self.aktuelle_checkup = true,
            Job::SachgeschichteMorning => self.sachgeschichte_morning = true,
            Job::SachgeschichteEvening => self.sachgeschichte_evening = true,
        }
    }
}

/// Inserting a job marks exactly that job and nothing else.
pub proof fn lemma_insert_semantics(s: JobSet, j: Job, k: Job)
    ensures
        s.spec_insert(j).spec_has(k) == (s.spec_has(k) || k == j),
{
}

/// Marking the same job twice leaves the same completed set as marking it
/// once: the record keeps sets, not lists.
pub proof fn lemma_mark_idempotent(s: JobSet, j: Job)
    ensures
        s.spec_insert(j).spec_insert(j) == s.spec_insert(j),
{
}

/// A job that checks the completed set is never due again once it is
/// completed, whatever the clock reads. Only the Sunday special ignores
/// the completed set.
pub proof fn lemma_completed_job_not_due(jobs: JobSet, weekday: Weekday, hour: u8, job: Job)
    requires
        jobs.spec_has(job),
        job != Job::AktuelleSunday,
    ensures
        spec_next_due(jobs, weekday, hour) != Option::Some(job),
{
}

impl Job {
    /// The two current-episode jobs work through every discovered item and
    /// also read the single current-episode page; the story jobs take the
    /// linked catalogue and stop after the first successfully published
    /// item.
    pub open spec fn spec_is_aktuelle(self) -> bool {
        self is AktuelleSunday || self is AktuelleCheckup
    }

    pub fn is_aktuelle(&self) -> (r: bool)
        ensures
            r == self.spec_is_aktuelle(),
    {
        matches!(self, Job::AktuelleSunday | Job::AktuelleCheckup)
    }
}

/// The Sunday special window opens at this hour ...
pub const SUNDAY_START_HOUR: u8 = 8;

/// ... and closes before this one.
pub const SUNDAY_END_HOUR: u8 = 13;

/// The evening checkup becomes due from this hour on.
pub const CHECKUP_HOUR: u8 = 19;

/// The morning story run becomes due from this hour on.
pub const MORNING_HOUR: u8 = 5;

/// The afternoon story run becomes due from this hour on.
pub const EVENING_HOUR: u8 = 16;

/// The ordered-priority rule for which job is due, first match wins. The
/// Sunday special is deliberately not gated on the completed set: within
/// its window it may fire again during re-checks to catch late-arriving
/// content.
pub open spec fn spec_next_due(jobs: JobSet, weekday: Weekday, hour: u8) -> Option<Job> {
    if weekday is Sunday && SUNDAY_START_HOUR <= hour < SUNDAY_END_HOUR {
        Option::Some(Job::AktuelleSunday)
    } else if !jobs.spec_has(Job::AktuelleCheckup) && hour >= CHECKUP_HOUR {
        Option::Some(Job::AktuelleCheckup)
    } else if !jobs.spec_has(Job::SachgeschichteMorning) && hour >= MORNING_HOUR {
        Option::Some(Job::SachgeschichteMorning)
    } else if !jobs.spec_has(Job::SachgeschichteEvening) && hour >= EVENING_HOUR {
        Option::Some(Job::SachgeschichteEvening)
    } else {
        Option::None
    }
}

/// An item identity is recorded as errored today.
pub open spec fn spec_is_error(errors: Seq<TrackerData>, id: TrackerData) -> bool {
    exists|i: int| 0 <= i < errors.len() && same_identity(#[trigger] errors[i], id)
}

/// A fresh record for `today`: nothing completed, nothing errored.
pub open spec fn spec_fresh(r: Daily, today: Date) -> bool {
    r.day == today && r.jobs == JobSet::spec_empty() && r.errors@.len() == 0
}

/// One day's persisted record.
pub struct Daily {
    pub day: Date,
    pub jobs: JobSet,
    pub errors: Vec<TrackerData>,
}

impl Daily {
    /// A fresh record for `today`.
    pub fn empty_for(today: Date) -> (r: Daily)
        ensures
            spec_fresh(r, today),
    {
        Daily { day: today, jobs: JobSet::empty(), errors: Vec::new() }
    }

    /// Date rollover: a loaded record is kept only when it is from today;
    /// anything else - another day's record, or none at all - is replaced
    /// by a fresh record. This is what bounds every job to at most one
    /// success per calendar day.
    pub fn resolve(today: Date, loaded: Option<Daily>) -> (r: Daily)
        ensures
            match loaded {
                Option::Some(d) => if d.day == today {
                    r == d
                } else {
                    spec_fresh(r, today)
                },
                Option::None => spec_fresh(r, today),
            },
    {
        match loaded {
            Option::Some(d) => {
                if d.day == today {
                    d
                } else {
                    Daily::empty_for(today)
                }
            },
            Option::None => Daily::empty_for(today),
        }
    }

    /// Records a completed job and clears today's errored items.
    pub fn mark_successful(&mut self, job: Job)
        ensures
            final (self).day == old(self).day,
            final (self).jobs == old(self).jobs.spec_insert(job),
            final (self).errors@.len() == 0,
    {
        self.jobs.insert(job);
        self.errors.clear();
    }

    /// Records one item identity as failed today, so the same item is not
    /// retried within the same day.
    pub fn mark_error(&mut self, error: WdrMedia)
        ensures
            final (self).day == old(self).day,
            final (self).jobs == old(self).jobs,
            final (self).errors@ == old(self).errors@.push(error.tracker_data),
    {
        self.errors.push(error.tracker_data);
    }

    /// Whether this item failed earlier today.
    pub fn is_error(&self, media: &WdrMedia) -> (r: bool)
        ensures
            r == spec_is_error(self.errors@, media.tracker_data),
    {
        let n = self.errors.len();
        let mut i: usize = 0;
        while i < n
            invariant
                i <= n,
                n == self.errors@.len(),
                forall|k: int|
                    0 <= k < i ==> !same_identity(#[trigger] self.errors@[k], media.tracker_data),
            decreases n - i,
        {
            if self.errors[i].same_identity_as(&media.tracker_data) {
                proof {
                    assert(same_identity(self.errors@[i as int], media.tracker_data));
                }
                return true;
            }
            i += 1;
        }
        false
    }

    /// The ordered-priority decision over an explicit clock reading.
    pub fn next_due(&self, weekday: Weekday, hour: u8) -> (r: Option<Job>)
        ensures
            r == spec_next_due(self.jobs, weekday, hour),
    {
        if matches!(weekday, Weekday::Sunday) && hour >= SUNDAY_START_HOUR && hour
            < SUNDAY_END_HOUR {
            Option::Some(Job::AktuelleSunday)
        } else if !self.jobs.has(Job::AktuelleCheckup) && hour >= CHECKUP_HOUR {
            Option::Some(Job::AktuelleCheckup)
        } else if !self.jobs.has(Job::SachgeschichteMorning) && hour >= MORNING_HOUR {
            Option::Some(Job::SachgeschichteMorning)
        } else if !self.jobs.has(Job::SachgeschichteEvening) && hour >= EVENING_HOUR {
            Option::Some(Job::SachgeschichteEvening)
        } else {
            Option::None
        }
    }

    /// The job due right now, against the local wall clock. Whatever the
    /// clock reads, the result follows the ordered-priority rule for that
    /// reading.
    pub fn get_next(&self) -> (r: Option<Job>)
        ensures
            exists|w: Weekday, h: u8| h < 24 && r == spec_next_due(self.jobs, w, h),
    {
        let (_, _, _, hour, days) = read_local_clock();
        let weekday = weekday_from_days_from_monday(days);
        let r = self.next_due(weekday, hour);
        proof {
            assert(hour < 24 && r == spec_next_due(self.jobs, weekday, hour));
        }
        r
    }
}

/// Today's date by the local wall clock. Any reading is a plausible date.
pub fn today() -> (d: Date)
    ensures
        1 <= d.month <= 12,
        1 <= d.day <= 31,
{
    let (year, month, day, _, _) = read_local_clock();
    Date { year, month, day }
}

/// Relies on chrono: `Local::now` and the `Datelike`/`Timelike` accessors
/// `date_naive`, `year`, `month` (1-12), `day` (1-31), `hour` (0-23), and
/// `Weekday::num_days_from_monday` (0-6). The reading depends on the wall
/// clock, so only those ranges are assumed.
#[verifier::external_body]
fn read_local_clock() -> (t: (i32, u8, u8, u8, u8))
    ensures
        1 <= t.1 <= 12,
        1 <= t.2 <= 31,
        t.3 < 24,
        t.4 < 7,
{
    let now = chrono::Local::now();
    let date = now.date_naive();
    (
        date.year(),
        date.month() as u8,
        date.day() as u8,
        now.hour() as u8,
        now.weekday().num_days_from_monday() as u8,
    )
}

/// Decodes chrono's days-from-Monday numbering.
fn weekday_from_days_from_monday(days: u8) -> (w: Weekday)
    requires
        days < 7,
{
    match days {
        0 => Weekday::Monday,
        1 => Weekday::Tuesday,
        2 => Weekday::Wednesday,
        3 => Weekday::Thursday,
        4 => Weekday::Friday,
        5 => Weekday::Saturday,
        _ => Weekday::Sunday,
    }
}

} // verus!
