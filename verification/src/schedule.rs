//! When backups happen: once every full hour while the server runs, and
//! once more before it stops.

use crate::backup::{Remote, Upload};
use crate::outcome::{Failure, Outcome};
use vstd::prelude::*;

verus! {

/// The length of an hour in nanoseconds.
pub const HOUR_NANOS: u64 = 3_600_000_000_000;

/// Backups are this many hours apart.
pub const BACKUP_EVERY_HOURS: u32 = 1;

/// The time from `now` to the next full hour, both in nanoseconds; `now`
/// counts from the start of 1970 in UTC. At a full hour it is a whole hour.
pub open spec fn pause_before_next_hour(now: int) -> int {
    HOUR_NANOS - now % (HOUR_NANOS as int)
}

/// The time from `now` to the full hour whose number, counted on from the
/// start of the day of `now`, is the next multiple of `hours`; both times in
/// nanoseconds, and `now` counts from the start of 1970 in UTC. At such an
/// hour it is `hours` whole hours.
pub open spec fn pause_before_next_run(hours: int, now: int) -> int {
    let hour_of_day = (now / (HOUR_NANOS as int)) % 24;
    (hours - hour_of_day % hours) * HOUR_NANOS - now % (HOUR_NANOS as int)
}

/// How long a job that runs every `hours` hours sleeps when it is `now`.
///
/// Calls `time_to_sleep_at` of `tokio_schedule` on the job
/// `every(hours).hour().in_timezone(&Utc)`, with the time that chrono's
/// `DateTime::from_timestamp_nanos` makes of `now`. The contract claims
/// what the source computes for such a job, which aims at minute 0, second
/// 0: the hours that the number of the hour in its day falls short of the
/// next multiple of `hours`, less the time that has passed in the hour. The
/// call divides by `hours`, and multiplies it into a number of nanoseconds
/// that has to fit 64 bits; the bounds keep clear of both. Not proved.
#[verifier::external_body]
fn time_to_sleep_at(hours: u32, now: i64) -> (pause: u64)
    requires
        1 <= hours <= 24,
    ensures
        pause == pause_before_next_run(hours as int, now as int),
{
    let at = chrono::DateTime::from_timestamp_nanos(now);
    let job = tokio_schedule::every(hours).hour().in_timezone(&chrono::Utc);
    tokio_schedule::Job::time_to_sleep_at(&job, &at).as_nanos() as u64
}

/// The periodic backup: asleep until the next full hour, then busy with one
/// upload, then asleep again, whatever became of the upload.
#[derive(Clone, Copy, Debug, PartialEq, Eq)]
pub enum Scheduler {
    /// Waiting for the next full hour. `last` is how the upload before ended.
    Sleeping { last: Option<Result<(), Failure>> },
    /// An upload is under way; its pending step is the next thing to do.
    Uploading(Upload),
}

impl Scheduler {
    /// Where the scheduler stands once its upload has moved to `upload`: a
    /// finished upload, failed or not, sends it back to sleep.
    pub open spec fn settled(upload: Upload) -> Scheduler {
        match upload {
            Upload::Finished(result) => Scheduler::Sleeping { last: Some(result) },
            _ => Scheduler::Uploading(upload),
        }
    }

    /// The state after the hour has struck: a sleeping scheduler begins
    /// exactly one upload, and a busy one goes on with the upload it has.
    pub open spec fn woken(self, remote: Remote) -> Scheduler {
        match self {
            Scheduler::Sleeping { .. } => Scheduler::settled(Upload::start(remote)),
            Scheduler::Uploading(_) => self,
        }
    }

    /// The state that follows `self` once the pending step of its upload
    /// has ended in `outcome`. A sleeping scheduler has no step pending.
    pub open spec fn next(self, outcome: Outcome) -> Scheduler {
        match self {
            Scheduler::Sleeping { .. } => self,
            Scheduler::Uploading(upload) => Scheduler::settled(upload.next(outcome)),
        }
    }

    /// The time to sleep from `now` to the next upload, both in nanoseconds;
    /// `now` counts from the start of 1970 in UTC.
    pub fn time_to_sleep(now: i64) -> (pause: u64)
        ensures
            pause == pause_before_next_hour(now as int),
            0 < pause <= HOUR_NANOS,
            (now + pause) % (HOUR_NANOS as int) == 0,
    {
        time_to_sleep_at(BACKUP_EVERY_HOURS, now)
    }

    fn settle(upload: Upload) -> (s: Scheduler)
        ensures
            s == Scheduler::settled(upload),
    {
        match upload {
            Upload::Finished(result) => Scheduler::Sleeping { last: Some(result) },
            _ => Scheduler::Uploading(upload),
        }
    }

    /// Takes in that the hour has struck.
    pub fn wake(self, remote: Remote) -> (s: Scheduler)
        ensures
            s == self.woken(remote),
    {
        match self {
            Scheduler::Sleeping { .. } => Scheduler::settle(Upload::begin(remote)),
            Scheduler::Uploading(upload) => Scheduler::Uploading(upload),
        }
    }

    /// Takes in the outcome of the pending step.
    pub fn advance(self, outcome: Outcome) -> (s: Scheduler)
        ensures
            s == self.next(outcome),
    {
        match self {
            Scheduler::Sleeping { last } => Scheduler::Sleeping { last },
            Scheduler::Uploading(upload) => Scheduler::settle(upload.advance(outcome)),
        }
    }
}

/// Every full hour begins exactly one upload, and how the upload before
/// ended does not matter: a scheduler that is asleep wakes into the first
/// step of a new upload, also after a failure.
pub proof fn lemma_every_hour_begins_one_upload(last: Option<Result<(), Failure>>)
    ensures
        (Scheduler::Sleeping { last }).woken(Remote::Configured) == Scheduler::Uploading(
            Upload::OpenLog,
        ),
        (Scheduler::Sleeping { last }).woken(Remote::Disabled) == (Scheduler::Sleeping {
            last: Some(Ok(())),
        }),
{
}

/// An upload that ends, well or badly, sends the scheduler back to sleep
/// with the upload's result; until then the scheduler stays with the upload.
pub proof fn lemma_scheduler_outlives_its_uploads(upload: Upload, outcome: Outcome)
    ensures
        match upload.next(outcome) {
            Upload::Finished(result) => Scheduler::Uploading(upload).next(outcome)
                == (Scheduler::Sleeping { last: Some(result) }),
            busy => Scheduler::Uploading(upload).next(outcome) == Scheduler::Uploading(busy),
        },
{
}

/// The way out: on a signal to stop, one last upload, and only when that
/// has ended, well or badly, the server begins to shut down.
#[derive(Clone, Copy, Debug, PartialEq, Eq)]
pub enum Shutdown {
    /// No signal has come; the server serves.
    Serving,
    /// The last upload is under way; its pending step is the next thing to do.
    FinalUpload(Upload),
    /// The last upload has ended in `backup`; the server may stop now.
    Stopping { backup: Result<(), Failure> },
}

impl Shutdown {
    /// Where the shutdown stands once its upload has moved to `upload`: a
    /// finished upload, failed or not, lets the server stop.
    pub open spec fn settled(upload: Upload) -> Shutdown {
        match upload {
            Upload::Finished(backup) => Shutdown::Stopping { backup },
            _ => Shutdown::FinalUpload(upload),
        }
    }

    /// The state after a signal to stop. The first signal begins the last
    /// upload; a further one changes nothing.
    pub open spec fn signalled(self, remote: Remote) -> Shutdown {
        match self {
            Shutdown::Serving => Shutdown::settled(Upload::start(remote)),
            _ => self,
        }
    }

    /// The state that follows `self` once the pending step of the last
    /// upload has ended in `outcome`.
    pub open spec fn next(self, outcome: Outcome) -> Shutdown {
        match self {
            Shutdown::FinalUpload(upload) => Shutdown::settled(upload.next(outcome)),
            _ => self,
        }
    }

    fn settle(upload: Upload) -> (s: Shutdown)
        ensures
            s == Shutdown::settled(upload),
    {
        match upload {
            Upload::Finished(backup) => Shutdown::Stopping { backup },
            _ => Shutdown::FinalUpload(upload),
        }
    }

    /// Takes in a signal to stop.
    pub fn signal(self, remote: Remote) -> (s: Shutdown)
        ensures
            s == self.signalled(remote),
    {
        match self {
            Shutdown::Serving => Shutdown::settle(Upload::begin(remote)),
            Shutdown::FinalUpload(upload) => Shutdown::FinalUpload(upload),
            Shutdown::Stopping { backup } => Shutdown::Stopping { backup },
        }
    }

    /// Takes in the outcome of the pending step.
    pub fn advance(self, outcome: Outcome) -> (s: Shutdown)
        ensures
            s == self.next(outcome),
    {
        match self {
            Shutdown::Serving => Shutdown::Serving,
            Shutdown::FinalUpload(upload) => Shutdown::settle(upload.advance(outcome)),
            Shutdown::Stopping { backup } => Shutdown::Stopping { backup },
        }
    }

    /// Whether the server may begin to stop.
    pub fn may_stop(&self) -> (r: bool)
        ensures
            r == (*self is Stopping),
    {
        match self {
            Shutdown::Stopping { .. } => true,
            _ => false,
        }
    }
}

/// The server stops only after the last upload has ended, and it does stop
/// then, whether the upload failed or not: a signal leads to the first step
/// of an upload, and the state in which the server may stop is reached
/// exactly when that upload has finished.
pub proof fn lemma_shutdown_follows_the_last_upload(upload: Upload, outcome: Outcome)
    ensures
        Shutdown::Serving.signalled(Remote::Configured) == Shutdown::FinalUpload(Upload::OpenLog),
        Shutdown::Serving.signalled(Remote::Disabled) == (Shutdown::Stopping { backup: Ok(()) }),
        Shutdown::Serving.next(outcome) == Shutdown::Serving,
        Shutdown::FinalUpload(upload).next(outcome) is Stopping <==> upload.next(outcome)
            is Finished,
        upload.next(outcome) matches Upload::Finished(backup) ==> Shutdown::FinalUpload(
            upload,
        ).next(outcome) == (Shutdown::Stopping { backup }),
{
}

} // verus!
