//! The remote backup protocol, free of I/O.
//!
//! Each backup operation is a small state machine. A state is either the one
//! step that the driver has to carry out next, or the operation's result. The
//! driver carries out the step (a request to the object store, a file-system
//! call), reports its [`Outcome`], and gets the next state back. This module
//! decides; it never touches the network or the disk.

use crate::outcome::{Failure, Outcome};
use vstd::prelude::*;

verus! {

/// The status with which the object store says that a bucket does not exist.
pub const NOT_FOUND: u16 = 404;

/// Whether an object store has been configured for this process.
///
/// Running without one is an operating mode of its own: every backup
/// operation then succeeds at once, without a single step.
#[derive(Clone, Copy, Debug, PartialEq, Eq, Structural)]
pub enum Remote {
    /// A client for the object store is at hand.
    Configured,
    /// Backup is switched off.
    Disabled,
}

/// The failure that a request to the object store ends in, given an outcome
/// other than [`Outcome::Done`].
pub open spec fn remote_failure(outcome: Outcome) -> Failure {
    match outcome {
        Outcome::Service { status } => Failure::RemoteService { status },
        _ => Failure::RemoteTransport,
    }
}

/// Exec counterpart of [`remote_failure`].
pub fn remote_failure_of(outcome: Outcome) -> (e: Failure)
    ensures
        e == remote_failure(outcome),
{
    match outcome {
        Outcome::Service { status } => Failure::RemoteService { status },
        _ => Failure::RemoteTransport,
    }
}

/// Making sure that the bucket is there: ask for it, and create it in the
/// fixed region where the store says that it does not exist.
#[derive(Clone, Copy, Debug, PartialEq, Eq, Structural)]
pub enum Probe {
    /// Next step: ask the object store whether the bucket exists.
    HeadBucket,
    /// Next step: create the bucket.
    CreateBucket,
    /// No step is left; the flag says whether the bucket is ready.
    Finished(bool),
}

impl Probe {
    /// The state in which a probe starts.
    pub open spec fn start(remote: Remote) -> Probe {
        match remote {
            Remote::Configured => Probe::HeadBucket,
            Remote::Disabled => Probe::Finished(true),
        }
    }

    /// The state that follows `self` once the pending step has ended in `outcome`.
    ///
    /// The bucket is ready when the store knows it, or when it answered
    /// "not found" and the creation then succeeded. Every other failure ends
    /// the probe with `false`.
    pub open spec fn next(self, outcome: Outcome) -> Probe {
        match self {
            Probe::HeadBucket => match outcome {
                Outcome::Done => Probe::Finished(true),
                Outcome::Service { status } => if status == NOT_FOUND {
                    Probe::CreateBucket
                } else {
                    Probe::Finished(false)
                },
                _ => Probe::Finished(false),
            },
            Probe::CreateBucket => Probe::Finished(outcome is Done),
            Probe::Finished(_) => self,
        }
    }

    /// Begins a probe.
    pub fn begin(remote: Remote) -> (p: Probe)
        ensures
            p == Probe::start(remote),
    {
        match remote {
            Remote::Configured => Probe::HeadBucket,
            Remote::Disabled => Probe::Finished(true),
        }
    }

    /// Takes in the outcome of the pending step.
    pub fn advance(self, outcome: Outcome) -> (p: Probe)
        ensures
            p == self.next(outcome),
    {
        match self {
            Probe::HeadBucket => match outcome {
                Outcome::Done => Probe::Finished(true),
                Outcome::Service { status } => {
                    if status == NOT_FOUND {
                        Probe::CreateBucket
                    } else {
                        Probe::Finished(false)
                    }
                },
                _ => Probe::Finished(false),
            },
            Probe::CreateBucket => match outcome {
                Outcome::Done => Probe::Finished(true),
                _ => Probe::Finished(false),
            },
            Probe::Finished(ready) => Probe::Finished(ready),
        }
    }

    /// The probe's answer, once it has one.
    pub fn ready(&self) -> (r: Option<bool>)
        ensures
            r == (match *self {
                Probe::Finished(ready) => Some(ready),
                _ => None::<bool>,
            }),
    {
        match self {
            Probe::Finished(ready) => Some(*ready),
            _ => None,
        }
    }
}

/// Sending the local log to the object store.
///
/// The log is opened first, then the bucket is probed, and only a ready
/// bucket gets the log, which replaces whatever the fixed key held before.
#[derive(Clone, Copy, Debug, PartialEq, Eq)]
pub enum Upload {
    /// Next step: open the local log for reading.
    OpenLog,
    /// Next step: the one that `probe` names. `opened` tells whether the log
    /// could be opened.
    Probing { opened: bool, probe: Probe },
    /// Next step: put the log under the fixed key.
    PutObject,
    /// No step is left.
    Finished(Result<(), Failure>),
}

impl Upload {
    /// The state in which an upload starts.
    pub open spec fn start(remote: Remote) -> Upload {
        match remote {
            Remote::Configured => Upload::OpenLog,
            Remote::Disabled => Upload::Finished(Ok(())),
        }
    }

    /// Where an upload stands once the probe inside it has moved to `probe`.
    ///
    /// A bucket that is not ready ends the upload before anything is sent,
    /// whatever became of the local log.
    pub open spec fn probed(opened: bool, probe: Probe) -> Upload {
        match probe {
            Probe::Finished(ready) => if !ready {
                Upload::Finished(Err(Failure::BucketNotReady))
            } else if opened {
                Upload::PutObject
            } else {
                Upload::Finished(Err(Failure::LocalIo))
            },
            _ => Upload::Probing { opened, probe },
        }
    }

    /// The state that follows `self` once the pending step has ended in `outcome`.
    pub open spec fn next(self, outcome: Outcome) -> Upload {
        match self {
            Upload::OpenLog => Upload::Probing { opened: outcome is Done, probe: Probe::HeadBucket },
            Upload::Probing { opened, probe } => Upload::probed(opened, probe.next(outcome)),
            Upload::PutObject => match outcome {
                Outcome::Done => Upload::Finished(Ok(())),
                _ => Upload::Finished(Err(remote_failure(outcome))),
            },
            Upload::Finished(_) => self,
        }
    }

    /// Begins an upload.
    pub fn begin(remote: Remote) -> (u: Upload)
        ensures
            u == Upload::start(remote),
    {
        match remote {
            Remote::Configured => Upload::OpenLog,
            Remote::Disabled => Upload::Finished(Ok(())),
        }
    }

    /// Takes in the outcome of the pending step.
    pub fn advance(self, outcome: Outcome) -> (u: Upload)
        ensures
            u == self.next(outcome),
    {
        match self {
            Upload::OpenLog => {
                let opened = match outcome {
                    Outcome::Done => true,
                    _ => false,
                };
                Upload::Probing { opened, probe: Probe::HeadBucket }
            },
            Upload::Probing { opened, probe } => {
                let probe = probe.advance(outcome);
                match probe {
                    Probe::Finished(ready) => {
                        if !ready {
                            Upload::Finished(Err(Failure::BucketNotReady))
                        } else if opened {
                            Upload::PutObject
                        } else {
                            Upload::Finished(Err(Failure::LocalIo))
                        }
                    },
                    _ => Upload::Probing { opened, probe },
                }
            },
            Upload::PutObject => match outcome {
                Outcome::Done => Upload::Finished(Ok(())),
                _ => Upload::Finished(Err(remote_failure_of(outcome))),
            },
            Upload::Finished(result) => Upload::Finished(result),
        }
    }

    /// The upload's result, once it has one.
    pub fn result(&self) -> (r: Option<Result<(), Failure>>)
        ensures
            r == (match *self {
                Upload::Finished(result) => Some(result),
                _ => None::<Result<(), Failure>>,
            }),
    {
        match self {
            Upload::Finished(result) => Some(*result),
            _ => None,
        }
    }
}

/// Replacing the local log by the object under the fixed key.
///
/// The object is asked for first. The local directory and an emptied log
/// file are then made ready whatever the store answered, and only after that
/// does the answer count: a body is copied into the file, a failure ends the
/// download.
#[derive(Clone, Copy, Debug, PartialEq, Eq)]
pub enum Download {
    /// Next step: ask the object store for the object.
    GetObject,
    /// Next step: create the log's directory. `fetched` is what the store answered.
    CreateDir { fetched: Outcome },
    /// Next step: create the log file, or empty the one that is there.
    TruncateLog { fetched: Outcome },
    /// Next step: write the object's body to the log file, chunk by chunk.
    CopyBody,
    /// No step is left.
    Finished(Result<(), Failure>),
}

impl Download {
    /// The state in which a download starts.
    pub open spec fn start(remote: Remote) -> Download {
        match remote {
            Remote::Configured => Download::GetObject,
            Remote::Disabled => Download::Finished(Ok(())),
        }
    }

    /// How a download ends when copying the body ended in `outcome`.
    pub open spec fn copied(outcome: Outcome) -> Result<(), Failure> {
        match outcome {
            Outcome::Done => Ok(()),
            Outcome::Service { status } => Err(Failure::RemoteService { status }),
            Outcome::Transport => Err(Failure::RemoteTransport),
            _ => Err(Failure::LocalIo),
        }
    }

    /// The state that follows `self` once the pending step has ended in `outcome`.
    pub open spec fn next(self, outcome: Outcome) -> Download {
        match self {
            Download::GetObject => Download::CreateDir { fetched: outcome },
            Download::CreateDir { fetched } => match outcome {
                Outcome::Done | Outcome::AlreadyExists => Download::TruncateLog { fetched },
                _ => Download::Finished(Err(Failure::LocalIo)),
            },
            Download::TruncateLog { fetched } => match outcome {
                Outcome::Done => match fetched {
                    Outcome::Done => Download::CopyBody,
                    _ => Download::Finished(Err(remote_failure(fetched))),
                },
                _ => Download::Finished(Err(Failure::LocalIo)),
            },
            Download::CopyBody => Download::Finished(Download::copied(outcome)),
            Download::Finished(_) => self,
        }
    }

    /// Begins a download.
    pub fn begin(remote: Remote) -> (d: Download)
        ensures
            d == Download::start(remote),
    {
        match remote {
            Remote::Configured => Download::GetObject,
            Remote::Disabled => Download::Finished(Ok(())),
        }
    }

    /// Takes in the outcome of the pending step.
    pub fn advance(self, outcome: Outcome) -> (d: Download)
        ensures
            d == self.next(outcome),
    {
        match self {
            Download::GetObject => Download::CreateDir { fetched: outcome },
            Download::CreateDir { fetched } => match outcome {
                Outcome::Done => Download::TruncateLog { fetched },
                Outcome::AlreadyExists => Download::TruncateLog { fetched },
                _ => Download::Finished(Err(Failure::LocalIo)),
            },
            Download::TruncateLog { fetched } => match outcome {
                Outcome::Done => match fetched {
                    Outcome::Done => Download::CopyBody,
                    _ => Download::Finished(Err(remote_failure_of(fetched))),
                },
                _ => Download::Finished(Err(Failure::LocalIo)),
            },
            Download::CopyBody => {
                let result = match outcome {
                    Outcome::Done => Ok(()),
                    Outcome::Service { status } => Err(Failure::RemoteService { status }),
                    Outcome::Transport => Err(Failure::RemoteTransport),
                    _ => Err(Failure::LocalIo),
                };
                Download::Finished(result)
            },
            Download::Finished(result) => Download::Finished(result),
        }
    }

    /// The download's result, once it has one.
    pub fn result(&self) -> (r: Option<Result<(), Failure>>)
        ensures
            r == (match *self {
                Download::Finished(result) => Some(result),
                _ => None::<Result<(), Failure>>,
            }),
    {
        match self {
            Download::Finished(result) => Some(*result),
            _ => None,
        }
    }
}

} // verus!
