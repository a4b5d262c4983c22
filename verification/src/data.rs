//! The state that the parts of the server share: the store, and whether
//! there is an object store to back the log up to.

use crate::backup::{Download, Probe, Remote, Upload};
use crate::schedule::Scheduler;
use crate::store::Store;
use vstd::prelude::*;

verus! {

/// The directory that holds the log.
pub const WAL_DIR: &'static str = ".data";

/// The log file.
pub const WAL_PATH: &'static str = ".data/wal.aof";

/// The bucket that holds the backup.
pub const BUCKET_NAME: &'static str = "qudis-wal";

/// The key under which the log is kept in the bucket.
pub const OBJECT_KEY: &'static str = "wal.aof";

/// The region in which the bucket is created where it does not exist.
pub const BUCKET_REGION: &'static str = "ap-northeast-1";

/// What the server's parts share.
pub struct AppData {
    /// The current key/value state.
    pub store: Store,
    /// Whether backups go anywhere.
    pub remote: Remote,
}

impl AppData {
    /// Puts a store and the backup mode together.
    pub fn new(store: Store, remote: Remote) -> (data: AppData)
        ensures
            data.store == store,
            data.remote == remote,
    {
        AppData { store, remote }
    }

    /// Begins the periodic backup: the scheduler starts out asleep.
    pub fn start_scheduler(&self) -> (scheduler: Scheduler)
        ensures
            scheduler == (Scheduler::Sleeping { last: None }),
    {
        Scheduler::Sleeping { last: None }
    }

    /// Begins an upload of the log.
    ///
    /// With backup switched off the upload has succeeded already, and no
    /// step is asked for.
    pub fn upload_wal(&self) -> (upload: Upload)
        ensures
            upload == Upload::start(self.remote),
    {
        Upload::begin(self.remote)
    }

    /// Begins a download of the log.
    ///
    /// With backup switched off the download has succeeded already, and no
    /// step is asked for.
    pub fn download_wal(&self) -> (download: Download)
        ensures
            download == Download::start(self.remote),
    {
        Download::begin(self.remote)
    }

    /// Begins a probe of the bucket.
    ///
    /// With backup switched off the probe has ended already, and says that
    /// the bucket is ready.
    pub fn is_bucket_ready(&self) -> (probe: Probe)
        ensures
            probe == Probe::start(self.remote),
    {
        Probe::begin(self.remote)
    }
}

} // verus!
