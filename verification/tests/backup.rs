use qudis::backup::{Download, Probe, Remote, Upload};
use qudis::data::AppData;
use qudis::outcome::{Failure, Outcome};
use qudis::store::Store;

/// A disk and an object store in memory, with a record of what was asked.
struct Fake {
    dir: bool,
    log: Option<Vec<u8>>,
    bucket: bool,
    object: Option<Vec<u8>>,
    asked: Vec<&'static str>,
}

impl Fake {
    fn new(log: Option<&[u8]>) -> Fake {
        Fake {
            dir: log.is_some(),
            log: log.map(|bytes| bytes.to_vec()),
            bucket: false,
            object: None,
            asked: Vec::new(),
        }
    }

    fn head_bucket(&mut self) -> Outcome {
        self.asked.push("head");
        if self.bucket {
            Outcome::Done
        } else {
            Outcome::Service { status: 404 }
        }
    }

    fn create_bucket(&mut self) -> Outcome {
        self.asked.push("create");
        self.bucket = true;
        Outcome::Done
    }

    fn probe_step(&mut self, probe: Probe) -> Outcome {
        match probe {
            Probe::HeadBucket => self.head_bucket(),
            Probe::CreateBucket => self.create_bucket(),
            Probe::Finished(_) => unreachable!(),
        }
    }

    fn probe(&mut self, data: &AppData) -> bool {
        let mut probe = data.is_bucket_ready();
        loop {
            if let Some(ready) = probe.ready() {
                return ready;
            }
            let outcome = self.probe_step(probe);
            probe = probe.advance(outcome);
        }
    }

    fn upload(&mut self, data: &AppData) -> Result<(), Failure> {
        let mut upload = data.upload_wal();
        loop {
            let outcome = match upload {
                Upload::OpenLog => {
                    self.asked.push("open");
                    if self.log.is_some() {
                        Outcome::Done
                    } else {
                        Outcome::Io
                    }
                }
                Upload::Probing { probe, .. } => self.probe_step(probe),
                Upload::PutObject => {
                    self.asked.push("put");
                    self.object = self.log.clone();
                    Outcome::Done
                }
                Upload::Finished(result) => return result,
            };
            upload = upload.advance(outcome);
        }
    }

    fn download(&mut self, data: &AppData, chunks: usize) -> Result<(), Failure> {
        let mut download = data.download_wal();
        loop {
            let outcome = match download {
                Download::GetObject => {
                    self.asked.push("get");
                    if self.object.is_some() {
                        Outcome::Done
                    } else {
                        Outcome::Service { status: 404 }
                    }
                }
                Download::CreateDir { .. } => {
                    self.asked.push("mkdir");
                    if self.dir {
                        Outcome::AlreadyExists
                    } else {
                        self.dir = true;
                        Outcome::Done
                    }
                }
                Download::TruncateLog { .. } => {
                    self.asked.push("truncate");
                    self.log = Some(Vec::new());
                    Outcome::Done
                }
                Download::CopyBody => {
                    self.asked.push("copy");
                    let body = self.object.clone().unwrap();
                    let file = self.log.as_mut().unwrap();
                    for chunk in body.chunks(chunks.max(1)) {
                        file.extend_from_slice(chunk);
                    }
                    Outcome::Done
                }
                Download::Finished(result) => return result,
            };
            download = download.advance(outcome);
        }
    }
}

fn configured() -> AppData {
    AppData::new(Store::new(), Remote::Configured)
}

fn disabled() -> AppData {
    AppData::new(Store::new(), Remote::Disabled)
}

#[test]
fn an_absent_bucket_is_created_and_the_upload_then_succeeds() {
    let data = configured();
    let mut fake = Fake::new(Some(b"SET a 1\n"));
    assert!(fake.probe(&data));
    assert!(fake.bucket);
    assert_eq!(fake.asked, vec!["head", "create"]);
    assert_eq!(fake.upload(&data), Ok(()));
    assert_eq!(fake.object, Some(b"SET a 1\n".to_vec()));
    assert_eq!(fake.asked, vec!["head", "create", "open", "head", "put"]);
}

#[test]
fn without_a_client_upload_and_download_succeed_without_a_step() {
    let data = disabled();
    let mut fake = Fake::new(Some(b"SET a 1\n"));
    assert_eq!(data.upload_wal(), Upload::Finished(Ok(())));
    assert_eq!(data.download_wal(), Download::Finished(Ok(())));
    assert_eq!(data.is_bucket_ready(), Probe::Finished(true));
    assert_eq!(fake.upload(&data), Ok(()));
    assert_eq!(fake.download(&data, 4), Ok(()));
    assert!(fake.probe(&data));
    assert!(fake.asked.is_empty());
    assert_eq!(fake.log, Some(b"SET a 1\n".to_vec()));
    assert_eq!(fake.object, None);
}

#[test]
fn two_uploads_of_an_unchanged_log_leave_the_same_object() {
    let data = configured();
    let mut fake = Fake::new(Some(b"SET a 1\nDELETE a\n"));
    assert_eq!(fake.upload(&data), Ok(()));
    let first = fake.object.clone();
    assert_eq!(fake.upload(&data), Ok(()));
    assert_eq!(fake.object, first);
    assert_eq!(first, Some(b"SET a 1\nDELETE a\n".to_vec()));
}

#[test]
fn two_downloads_leave_the_same_log() {
    let data = configured();
    let mut fake = Fake::new(Some(b"stale"));
    fake.bucket = true;
    fake.object = Some(b"SET a 1\nSET b 2\n".to_vec());
    assert_eq!(fake.download(&data, 3), Ok(()));
    let first = fake.log.clone();
    assert_eq!(fake.download(&data, 5), Ok(()));
    assert_eq!(fake.log, first);
    assert_eq!(first, Some(b"SET a 1\nSET b 2\n".to_vec()));
}

#[test]
fn a_download_after_an_upload_gives_the_log_back() {
    let data = configured();
    let log: &[u8] = b"SET a 1\nSET b two words\nDELETE a\n";
    let mut fake = Fake::new(Some(log));
    assert_eq!(fake.upload(&data), Ok(()));
    assert_eq!(fake.download(&data, 7), Ok(()));
    assert_eq!(fake.log, Some(log.to_vec()));
}

#[test]
fn a_download_creates_the_directory_where_it_is_missing() {
    let data = configured();
    let mut fake = Fake::new(None);
    fake.bucket = true;
    fake.object = Some(b"SET a 1\n".to_vec());
    assert_eq!(fake.download(&data, 2), Ok(()));
    assert!(fake.dir);
    assert_eq!(fake.log, Some(b"SET a 1\n".to_vec()));
    assert_eq!(fake.asked, vec!["get", "mkdir", "truncate", "copy"]);
}

#[test]
fn the_bucket_is_ready_when_the_store_knows_it() {
    assert_eq!(Probe::begin(Remote::Configured), Probe::HeadBucket);
    assert_eq!(Probe::HeadBucket.advance(Outcome::Done), Probe::Finished(true));
    assert_eq!(Probe::HeadBucket.advance(Outcome::Done).ready(), Some(true));
    assert_eq!(Probe::HeadBucket.ready(), None);
}

#[test]
fn the_bucket_is_created_only_on_not_found() {
    assert_eq!(Probe::HeadBucket.advance(Outcome::Service { status: 404 }), Probe::CreateBucket);
    assert_eq!(Probe::HeadBucket.advance(Outcome::Service { status: 403 }), Probe::Finished(false));
    assert_eq!(Probe::HeadBucket.advance(Outcome::Service { status: 500 }), Probe::Finished(false));
    assert_eq!(Probe::HeadBucket.advance(Outcome::Transport), Probe::Finished(false));
    assert_eq!(Probe::CreateBucket.advance(Outcome::Done), Probe::Finished(true));
    assert_eq!(Probe::CreateBucket.advance(Outcome::Service { status: 409 }), Probe::Finished(false));
    assert_eq!(Probe::CreateBucket.advance(Outcome::Transport), Probe::Finished(false));
    assert_eq!(Probe::Finished(false).advance(Outcome::Done), Probe::Finished(false));
}

#[test]
fn an_upload_to_a_bucket_that_is_not_ready_sends_nothing() {
    let upload = Upload::begin(Remote::Configured);
    assert_eq!(upload, Upload::OpenLog);
    let upload = upload.advance(Outcome::Done);
    assert_eq!(upload, Upload::Probing { opened: true, probe: Probe::HeadBucket });
    assert_eq!(upload.result(), None);
    let refused = upload.advance(Outcome::Service { status: 403 });
    assert_eq!(refused, Upload::Finished(Err(Failure::BucketNotReady)));
    assert_eq!(refused.result(), Some(Err(Failure::BucketNotReady)));
    let creating = upload.advance(Outcome::Service { status: 404 });
    assert_eq!(creating, Upload::Probing { opened: true, probe: Probe::CreateBucket });
    assert_eq!(
        creating.advance(Outcome::Transport),
        Upload::Finished(Err(Failure::BucketNotReady))
    );
    assert_eq!(creating.advance(Outcome::Done), Upload::PutObject);
}

#[test]
fn an_upload_reports_each_kind_of_failure() {
    assert_eq!(
        Upload::PutObject.advance(Outcome::Service { status: 503 }),
        Upload::Finished(Err(Failure::RemoteService { status: 503 }))
    );
    assert_eq!(
        Upload::PutObject.advance(Outcome::Transport),
        Upload::Finished(Err(Failure::RemoteTransport))
    );
    assert_eq!(Upload::PutObject.advance(Outcome::Done), Upload::Finished(Ok(())));
    let unread = Upload::OpenLog.advance(Outcome::Io);
    assert_eq!(unread, Upload::Probing { opened: false, probe: Probe::HeadBucket });
    assert_eq!(unread.advance(Outcome::Done), Upload::Finished(Err(Failure::LocalIo)));
    assert_eq!(
        unread.advance(Outcome::Transport),
        Upload::Finished(Err(Failure::BucketNotReady))
    );
}

#[test]
fn an_upload_without_a_log_fails_and_keeps_the_object() {
    let data = configured();
    let mut fake = Fake::new(None);
    fake.bucket = true;
    fake.object = Some(b"kept".to_vec());
    assert_eq!(fake.upload(&data), Err(Failure::LocalIo));
    assert_eq!(fake.object, Some(b"kept".to_vec()));
    assert_eq!(fake.asked, vec!["open", "head"]);
}

#[test]
fn a_download_reports_each_kind_of_failure() {
    let fetched = Download::begin(Remote::Configured).advance(Outcome::Done);
    assert_eq!(fetched, Download::CreateDir { fetched: Outcome::Done });
    assert_eq!(fetched.advance(Outcome::Io), Download::Finished(Err(Failure::LocalIo)));
    let ready = fetched.advance(Outcome::AlreadyExists);
    assert_eq!(ready, Download::TruncateLog { fetched: Outcome::Done });
    assert_eq!(fetched.advance(Outcome::Done), ready);
    assert_eq!(ready.advance(Outcome::Io), Download::Finished(Err(Failure::LocalIo)));
    assert_eq!(ready.advance(Outcome::Done), Download::CopyBody);
    assert_eq!(Download::CopyBody.advance(Outcome::Done), Download::Finished(Ok(())));
    assert_eq!(Download::CopyBody.advance(Outcome::Done).result(), Some(Ok(())));
    assert_eq!(Download::CopyBody.result(), None);
    assert_eq!(Download::CopyBody.advance(Outcome::Io), Download::Finished(Err(Failure::LocalIo)));
    assert_eq!(
        Download::CopyBody.advance(Outcome::Transport),
        Download::Finished(Err(Failure::RemoteTransport))
    );
    let refused = Download::TruncateLog { fetched: Outcome::Service { status: 403 } };
    assert_eq!(
        refused.advance(Outcome::Done),
        Download::Finished(Err(Failure::RemoteService { status: 403 }))
    );
    let unreachable = Download::TruncateLog { fetched: Outcome::Transport };
    assert_eq!(
        unreachable.advance(Outcome::Done),
        Download::Finished(Err(Failure::RemoteTransport))
    );
}

#[test]
fn a_download_that_finds_no_object_has_emptied_the_log() {
    let data = configured();
    let mut fake = Fake::new(Some(b"SET a 1\n"));
    fake.bucket = true;
    assert_eq!(fake.download(&data, 4), Err(Failure::RemoteService { status: 404 }));
    assert_eq!(fake.log, Some(Vec::new()));
    assert_eq!(fake.asked, vec!["get", "mkdir", "truncate"]);
}
