//! What the steps of an operation end in, and why an operation fails.
//!
//! The library never touches the disk or the network. Where an operation
//! needs either, it names the step, and the driver that carries the step out
//! reports back with an [`Outcome`].

use vstd::prelude::*;

verus! {

/// What the driver reports after carrying out one step.
#[derive(Clone, Copy, Debug, PartialEq, Eq, Structural)]
pub enum Outcome {
    /// The step succeeded.
    Done,
    /// The directory to be created was already there.
    AlreadyExists,
    /// The object store answered with a failure of its own, under this status.
    Service { status: u16 },
    /// The request never got an answer from the object store.
    Transport,
    /// A local file or directory could not be created, read or written.
    Io,
}

/// Why an operation failed.
#[derive(Clone, Copy, Debug, PartialEq, Eq, Structural)]
pub enum Failure {
    /// The bucket is neither there nor could it be created; nothing was uploaded.
    BucketNotReady,
    /// The object store refused the request, with this status.
    RemoteService { status: u16 },
    /// The object store could not be reached.
    RemoteTransport,
    /// A local directory or file could not be created, read or written.
    LocalIo,
    /// Bytes that had to be text are not well-formed UTF-8.
    Encoding,
    /// A key or a value cannot be written as one line of the log.
    Unloggable,
}

} // verus!
