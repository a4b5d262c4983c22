//! The backup protocol against a world that does what it is asked.
//!
//! The protocol itself only names steps. What it achieves shows when the
//! steps are carried out. This module describes, as mathematics only, a
//! local disk and an object store that never fail on their own account, and
//! states what uploads and downloads leave behind there.

use crate::backup::{Download, Probe, Remote, Upload, NOT_FOUND};
use crate::outcome::{Failure, Outcome};
use vstd::prelude::*;

verus! {

/// The disk and the object store, as far as the protocol can tell them apart.
pub struct World {
    /// Whether the log's directory exists.
    pub dir: bool,
    /// What the log file holds, where there is one.
    pub log: Option<Seq<u8>>,
    /// Whether the bucket exists.
    pub bucket: bool,
    /// What the object under the fixed key holds, where there is one.
    pub object: Option<Seq<u8>>,
}

impl World {
    /// A log file lies in its directory, and an object in its bucket.
    pub open spec fn consistent(self) -> bool {
        &&& self.log is Some ==> self.dir
        &&& self.object is Some ==> self.bucket
    }
}

impl Probe {
    /// What the pending step comes to in `world`, and the world after it.
    pub open spec fn perform(self, world: World) -> (Outcome, World) {
        match self {
            Probe::HeadBucket => if world.bucket {
                (Outcome::Done, world)
            } else {
                (Outcome::Service { status: NOT_FOUND }, world)
            },
            Probe::CreateBucket => (Outcome::Done, World { bucket: true, ..world }),
            Probe::Finished(_) => (Outcome::Done, world),
        }
    }

    /// The probe and the world after `steps` steps.
    pub open spec fn run(self, world: World, steps: nat) -> (Probe, World)
        decreases steps,
    {
        if steps == 0 || self is Finished {
            (self, world)
        } else {
            let (outcome, after) = self.perform(world);
            self.next(outcome).run(after, (steps - 1) as nat)
        }
    }
}

impl Upload {
    /// What the pending step comes to in `world`, and the world after it.
    pub open spec fn perform(self, world: World) -> (Outcome, World) {
        match self {
            Upload::OpenLog => if world.log is Some {
                (Outcome::Done, world)
            } else {
                (Outcome::Io, world)
            },
            Upload::Probing { probe, .. } => probe.perform(world),
            Upload::PutObject => if !world.bucket {
                (Outcome::Service { status: NOT_FOUND }, world)
            } else if world.log is None {
                (Outcome::Transport, world)
            } else {
                (Outcome::Done, World { object: world.log, ..world })
            },
            Upload::Finished(_) => (Outcome::Done, world),
        }
    }

    /// The upload and the world after `steps` steps.
    pub open spec fn run(self, world: World, steps: nat) -> (Upload, World)
        decreases steps,
    {
        if steps == 0 || self is Finished {
            (self, world)
        } else {
            let (outcome, after) = self.perform(world);
            self.next(outcome).run(after, (steps - 1) as nat)
        }
    }
}

impl Download {
    /// What the pending step comes to in `world`, and the world after it.
    pub open spec fn perform(self, world: World) -> (Outcome, World) {
        match self {
            Download::GetObject => if world.bucket && world.object is Some {
                (Outcome::Done, world)
            } else {
                (Outcome::Service { status: NOT_FOUND }, world)
            },
            Download::CreateDir { .. } => if world.dir {
                (Outcome::AlreadyExists, world)
            } else {
                (Outcome::Done, World { dir: true, ..world })
            },
            Download::TruncateLog { .. } => if world.dir {
                (Outcome::Done, World { log: Some(Seq::empty()), ..world })
            } else {
                (Outcome::Io, world)
            },
            Download::CopyBody => match (world.log, world.object) {
                (Some(log), Some(object)) => (
                    Outcome::Done,
                    World { log: Some(log + object), ..world },
                ),
                _ => (Outcome::Io, world),
            },
            Download::Finished(_) => (Outcome::Done, world),
        }
    }

    /// The download and the world after `steps` steps.
    pub open spec fn run(self, world: World, steps: nat) -> (Download, World)
        decreases steps,
    {
        if steps == 0 || self is Finished {
            (self, world)
        } else {
            let (outcome, after) = self.perform(world);
            self.next(outcome).run(after, (steps - 1) as nat)
        }
    }
}

/// No backup operation asks for more steps than this.
pub open spec fn enough() -> nat {
    4
}

/// A probe, carried through in `world`: how it ends, and the world after it.
pub open spec fn probe(remote: Remote, world: World) -> (Probe, World) {
    Probe::start(remote).run(world, enough())
}

/// An upload, carried through in `world`: how it ends, and the world after it.
pub open spec fn upload(remote: Remote, world: World) -> (Upload, World) {
    Upload::start(remote).run(world, enough())
}

/// A download, carried through in `world`: how it ends, and the world after it.
pub open spec fn download(remote: Remote, world: World) -> (Download, World) {
    Download::start(remote).run(world, enough())
}

/// With backup switched off, every operation succeeds without a step: the
/// world is as it was.
pub proof fn lemma_disabled_is_a_no_op(world: World)
    ensures
        probe(Remote::Disabled, world) == (Probe::Finished(true), world),
        upload(Remote::Disabled, world) == (Upload::Finished(Ok(())), world),
        download(Remote::Disabled, world) == (Download::Finished(Ok(())), world),
{
}

/// A probe ends with a bucket that is ready: where there was none, it has
/// been created. Nothing else changes.
pub proof fn lemma_probe_provides_the_bucket(world: World)
    ensures
        probe(Remote::Configured, world) == (Probe::Finished(true), World { bucket: true, ..world }),
{
    reveal_with_fuel(Probe::run, 3);
}

/// An upload of a log that is there succeeds, with or without a bucket at
/// the start, and leaves the log's bytes under the fixed key. The log itself
/// is untouched.
pub proof fn lemma_upload_stores_the_log(world: World)
    requires
        world.log is Some,
    ensures
        upload(Remote::Configured, world) == (
            Upload::Finished(Ok(())),
            World { bucket: true, object: world.log, ..world },
        ),
{
    reveal_with_fuel(Upload::run, 5);
}

/// An upload without a log to send fails and leaves the object as it was.
pub proof fn lemma_upload_without_a_log(world: World)
    requires
        world.log is None,
    ensures
        upload(Remote::Configured, world).0 is Finished,
        upload(Remote::Configured, world).0 != Upload::Finished(Ok(())),
        upload(Remote::Configured, world).1.object == world.object,
{
    reveal_with_fuel(Upload::run, 5);
}

/// A download of an object that is there succeeds and leaves exactly the
/// object's bytes in the log file, whatever the file held before.
pub proof fn lemma_download_replaces_the_log(world: World)
    requires
        world.consistent(),
        world.object is Some,
    ensures
        download(Remote::Configured, world) == (
            Download::Finished(Ok(())),
            World { dir: true, log: world.object, ..world },
        ),
{
    reveal_with_fuel(Download::run, 5);
    let object = world.object->0;
    assert(Seq::<u8>::empty() + object =~= object);
}

/// A download that finds no object fails with what the store answered, and
/// by then the log file has been emptied: the local steps are taken before
/// the answer counts.
pub proof fn lemma_download_without_an_object(world: World)
    requires
        world.object is None,
    ensures
        download(Remote::Configured, world) == (
            Download::Finished(Err(Failure::RemoteService { status: NOT_FOUND })),
            World { dir: true, log: Some(Seq::empty()), ..world },
        ),
{
    reveal_with_fuel(Download::run, 5);
}

/// Uploading twice is uploading once: a second upload of an unchanged log
/// leaves the same bytes under the fixed key, and the same world.
pub proof fn lemma_upload_is_idempotent(world: World)
    requires
        world.log is Some,
    ensures
        upload(Remote::Configured, upload(Remote::Configured, world).1) == upload(
            Remote::Configured,
            world,
        ),
{
    lemma_upload_stores_the_log(world);
    lemma_upload_stores_the_log(upload(Remote::Configured, world).1);
}

/// Downloading twice is downloading once: a second download of an unchanged
/// object leaves the same log file, and the same world.
pub proof fn lemma_download_is_idempotent(world: World)
    requires
        world.consistent(),
        world.object is Some,
    ensures
        download(Remote::Configured, download(Remote::Configured, world).1) == download(
            Remote::Configured,
            world,
        ),
{
    lemma_download_replaces_the_log(world);
    lemma_download_replaces_the_log(download(Remote::Configured, world).1);
}

/// The round trip: a download that follows an upload, with no change to the
/// log in between, leaves the log file with the bytes that it had.
pub proof fn lemma_download_after_upload_restores_the_log(world: World)
    requires
        world.consistent(),
        world.log is Some,
    ensures
        download(Remote::Configured, upload(Remote::Configured, world).1).0 == Download::Finished(
            Ok(()),
        ),
        download(Remote::Configured, upload(Remote::Configured, world).1).1.log == world.log,
{
    lemma_upload_stores_the_log(world);
    lemma_download_replaces_the_log(upload(Remote::Configured, world).1);
}

} // verus!
