use file_guard::fuse_fs::credential_fs::{
    authorize, build_file_attr, default_ttl, read_store_or_empty, slice_content, CredentialFs,
    Errno, FileKind, Gate, HandleState, Saved, Truncation,
};
use file_guard::path::FilePath;
use file_guard::policy::rule::{Access, Decision};
use file_guard::process::identify::ProcessInfo;

const ROOT: u64 = fuser::INodeNo::ROOT.0;

/// The guarded file over a store that is one optional entry.
struct Guarded {
    fs: CredentialFs,
    store: Option<Vec<u8>>,
    broken: bool,
}

impl Guarded {
    fn new(initial: Option<&[u8]>) -> Guarded {
        let store = initial.map(|c| c.to_vec());
        Guarded { fs: CredentialFs::new(store.clone()), store, broken: false }
    }

    fn open(&mut self, flags: i32) -> u64 {
        let stored = if CredentialFs::open_preloads(flags) { self.store.clone() } else { None };
        self.fs.open(ROOT, flags, true, stored).unwrap()
    }

    fn read(&self, fh: u64, offset: u64, size: u32) -> Result<Vec<u8>, Errno> {
        let stored = if self.fs.read_needs_store(ROOT, fh) { self.store.clone() } else { None };
        self.fs.read(ROOT, fh, offset, size, stored)
    }

    fn put(&mut self, content: Vec<u8>) -> bool {
        if !self.broken {
            self.store = Some(content);
        }
        !self.broken
    }

    fn truncate(&mut self, fh: Option<u64>, len: u64) -> Result<(), Errno> {
        match self.fs.apply_truncate(fh, len) {
            Truncation::Done => Ok(()),
            Truncation::Store => {
                let content = CredentialFs::truncated_content(self.store.clone(), len);
                let stored = self.put(content);
                self.fs.finish_truncate(len, stored)
            }
        }
    }

    fn save(&mut self, fh: u64) -> Saved {
        match self.fs.persist_handle(ROOT, fh).unwrap() {
            None => Saved::Clean,
            Some(buf) => {
                let len = buf.len() as u64;
                if self.put(buf) {
                    Saved::Stored(len)
                } else {
                    Saved::Failed
                }
            }
        }
    }

    fn flush(&mut self, fh: u64) -> Result<(), Errno> {
        let saved = self.save(fh);
        self.fs.flush(fh, saved)
    }

    fn release(&mut self, fh: u64) -> Result<(), Errno> {
        let saved = self.save(fh);
        self.fs.release(fh, saved)
    }
}

#[test]
fn slice_content_bounds() {
    let c = b"hello world";
    assert_eq!(slice_content(c, 0, 5), b"hello");
    assert_eq!(slice_content(c, 6, 100), b"world"); // size past end clamps
    assert_eq!(slice_content(c, 11, 10), b""); // at end
    assert_eq!(slice_content(c, 100, 10), b""); // past end
    assert_eq!(slice_content(c, 0, 0), b""); // zero size
}

/// The race that corrupted the ADC file: a write handle is open with the old,
/// longer content buffered when a handle-less truncate shrinks the file. The
/// truncate must reach the live handle, or its stale buffer re-grows the file on
/// release.
#[test]
fn fhless_truncate_is_not_reverted_by_open_write_handle() {
    let mut g = Guarded::new(Some(b"OLD-LONG-CONTENT"));

    // Writer opens in place (no O_TRUNC): the handle preloads existing bytes.
    let buf = read_store_or_empty(g.store.clone());
    let fh = g.fs.register_handle(HandleState { access: Access::Write, buf, dirty: false });

    // Writer overwrites the head with shorter content, leaving a stale tail.
    assert_eq!(g.fs.write(ROOT, fh, 0, b"NEW"), Ok(3));

    // A truncate arrives WITHOUT the fh (the bug trigger).
    g.truncate(None, 3).unwrap();

    // Persisting the handle must not bring the tail back.
    g.flush(fh).unwrap();

    assert_eq!(
        g.store.as_deref().unwrap(),
        b"NEW",
        "fh-less truncate was reverted by the open write handle's stale buffer"
    );
}

/// A truncate that DOES carry its write handle shrinks that handle's buffer,
/// so the shorter content is what gets persisted (the editor ftruncate path).
#[test]
fn handle_truncate_shrinks_persisted_content() {
    let mut g = Guarded::new(Some(b""));
    let fh = g.fs.register_handle(HandleState {
        access: Access::Write,
        buf: b"HELLO WORLD".to_vec(),
        dirty: true,
    });
    g.truncate(Some(fh), 5).unwrap();
    g.flush(fh).unwrap();
    assert_eq!(g.store.as_deref().unwrap(), b"HELLO");
}

#[test]
fn allowed_reader_gets_the_stored_contents() {
    let mut g = Guarded::new(Some(b"super-secret-token\n"));
    assert_eq!(CredentialFs::open_access(ROOT, libc::O_RDONLY), Ok(Access::Read));
    let fh = g.open(libc::O_RDONLY);
    assert_eq!(g.read(fh, 0, 4096).unwrap(), b"super-secret-token\n");
    assert_eq!(g.read(fh, 6, 6).unwrap(), b"secret");
    assert_eq!(g.release(fh), Ok(()));
    assert_eq!(g.read(fh, 0, 10), Err(Errno::EACCES));
}

/// An authorized writer opens the file in place (no O_TRUNC), overwrites it with
/// shorter content, and shrinks it — exactly an editor's save.
#[test]
fn in_place_overwrite_then_shrink_has_no_stale_tail() {
    let old = b"OLD-LONGER-CREDENTIAL-CONTENTS\n";
    let new = b"new-short\n";
    let mut g = Guarded::new(Some(old));
    let fh = g.open(libc::O_WRONLY);
    assert_eq!(g.read(fh, 0, 100).unwrap(), old);
    g.fs.write(ROOT, fh, 0, new).unwrap();
    assert_eq!(g.fs.setattr_gate(ROOT, Some(new.len() as u64), Some(fh)), Gate::Resize);
    g.truncate(Some(fh), new.len() as u64).unwrap();
    assert_eq!(g.fs.size(), new.len() as u64);
    g.flush(fh).unwrap();
    g.release(fh).unwrap();
    assert_eq!(
        g.store.as_deref().unwrap(),
        new,
        "shrink left a resurrected tail from the old content"
    );
}

#[test]
fn unauthorized_open_is_denied() {
    let mut g = Guarded::new(Some(b"secret"));
    let got = g.fs.open(ROOT, libc::O_RDONLY, false, None);
    assert_eq!(got, Err(Errno::EACCES));
    assert_eq!(g.read(1, 0, 10), Err(Errno::EACCES));
    assert_eq!(g.open(libc::O_RDONLY), 1);
}

#[test]
fn only_the_root_exists() {
    let mut g = Guarded::new(Some(b"secret"));
    assert_eq!(g.fs.getattr(2), Err(Errno::ENOENT));
    assert_eq!(g.fs.lookup(), Errno::ENOENT);
    assert_eq!(CredentialFs::open_access(2, 0), Err(Errno::ENOENT));
    assert_eq!(g.fs.open(2, 0, true, None), Err(Errno::ENOENT));
    let fh = g.open(libc::O_RDWR);
    assert!(!g.fs.read_needs_store(2, fh));
    assert_eq!(g.fs.read(2, fh, 0, 1, None), Err(Errno::ENOENT));
    assert_eq!(g.fs.write(2, fh, 0, b"x"), Err(Errno::ENOENT));
    assert_eq!(g.fs.setattr_gate(2, Some(0), Some(fh)), Gate::Refuse(Errno::ENOENT));
    assert_eq!(g.fs.persist_handle(2, fh), Err(Errno::ENOENT));
}

#[test]
fn attributes_of_the_file() {
    let g = Guarded::new(Some(b"secret"));
    let attr = g.fs.getattr(ROOT).unwrap();
    assert_eq!(attr, build_file_attr(6));
    assert_eq!(attr.ino, ROOT);
    assert_eq!(attr.kind, FileKind::RegularFile);
    assert_eq!(attr.perm, 0o644);
    assert_eq!((attr.size, attr.blocks, attr.blksize), (6, 1, 512));
    assert_eq!((attr.nlink, attr.uid, attr.gid, attr.rdev, attr.flags), (1, 0, 0, 0, 0));
    assert_eq!((default_ttl().secs, default_ttl().nanos), (0, 0));
    assert_eq!(Guarded::new(None).fs.size(), 0);
}

#[test]
fn writes_grow_the_file_and_fill_gaps_with_zeros() {
    let mut g = Guarded::new(Some(b"abc"));
    let fh = g.open(libc::O_RDWR);
    assert_eq!(g.fs.write(ROOT, fh, 5, b"xy"), Ok(2));
    assert_eq!(g.read(fh, 0, 100).unwrap(), b"abc\0\0xy");
    assert_eq!(g.fs.size(), 7);
    assert_eq!(g.fs.write(ROOT, fh, 1, b"Z"), Ok(1));
    assert_eq!(g.read(fh, 1, 1).unwrap(), b"Z");
    assert_eq!(g.fs.size(), 7);
    // Not stored before a flush.
    assert_eq!(g.store.as_deref().unwrap(), b"abc");
    g.flush(fh).unwrap();
    assert_eq!(g.store.as_deref().unwrap(), b"aZc\0\0xy");
    // A reader sees what was stored.
    let reader = g.open(libc::O_RDONLY);
    assert_eq!(g.read(reader, 0, 100).unwrap(), b"aZc\0\0xy");
    // An empty write beyond the end grows the file too.
    assert_eq!(g.fs.write(ROOT, fh, 9, b""), Ok(0));
    assert_eq!(g.fs.size(), 9);
}

#[test]
fn read_handles_cannot_write_or_resize() {
    let mut g = Guarded::new(Some(b"abc"));
    let fh = g.open(libc::O_RDONLY);
    assert_eq!(g.fs.handle_access(fh), Some(Access::Read));
    assert_eq!(g.fs.write(ROOT, fh, 0, b"x"), Err(Errno::EACCES));
    assert_eq!(g.fs.write(ROOT, 77, 0, b"x"), Err(Errno::EACCES));
    assert_eq!(g.fs.setattr_gate(ROOT, Some(0), Some(fh)), Gate::Refuse(Errno::EACCES));
    assert_eq!(g.fs.setattr_gate(ROOT, None, Some(fh)), Gate::Pass);
    assert_eq!(g.fs.setattr_gate(ROOT, Some(0), None), Gate::Authorize);
    assert_eq!(g.fs.setattr_gate(ROOT, Some(0), Some(77)), Gate::Authorize);
    assert_eq!(g.flush(fh), Ok(()));
    assert_eq!(g.release(fh), Ok(()));
    assert_eq!(g.store.as_deref().unwrap(), b"abc");
}

#[test]
fn truncating_open_empties_the_file() {
    let mut g = Guarded::new(Some(b"abc"));
    let fh = g.open(libc::O_WRONLY | libc::O_TRUNC);
    assert_eq!(g.fs.size(), 0);
    assert_eq!(g.store.as_deref().unwrap(), b"abc");
    g.release(fh).unwrap();
    assert_eq!(g.store.as_deref().unwrap(), b"");
}

#[test]
fn creating_open_starts_from_the_contents() {
    let mut g = Guarded::new(Some(b"abc"));
    assert!(CredentialFs::open_preloads(libc::O_WRONLY | libc::O_CREAT));
    assert!(CredentialFs::open_preloads(libc::O_WRONLY));
    assert!(!CredentialFs::open_preloads(libc::O_WRONLY | libc::O_CREAT | libc::O_TRUNC));
    assert!(!CredentialFs::open_preloads(libc::O_RDONLY));
    let fh = g.open(libc::O_WRONLY | libc::O_CREAT);
    assert_eq!(g.read(fh, 0, 10).unwrap(), b"abc");
    g.release(fh).unwrap();
    assert_eq!(g.store.as_deref().unwrap(), b"abc");
    // A partial write keeps the rest.
    let fh = g.open(libc::O_WRONLY | libc::O_CREAT);
    g.fs.write(ROOT, fh, 0, b"X").unwrap();
    g.release(fh).unwrap();
    assert_eq!(g.store.as_deref().unwrap(), b"Xbc");
}

#[test]
fn failed_stores_are_retried() {
    let mut g = Guarded::new(None);
    let fh = g.open(libc::O_WRONLY);
    g.fs.write(ROOT, fh, 0, b"new").unwrap();
    g.broken = true;
    assert_eq!(g.flush(fh), Err(Errno::EIO));
    assert_eq!(g.truncate(None, 2), Err(Errno::EIO));
    assert_eq!(g.fs.size(), 3);
    g.broken = false;
    assert_eq!(g.flush(fh), Ok(()));
    assert_eq!(g.store.as_deref().unwrap(), b"ne");
    assert_eq!(g.fs.size(), 2);
    // Nothing is pending any more.
    assert_eq!(g.fs.persist_handle(ROOT, fh), Ok(None));
    assert_eq!(g.fs.fsync(fh, Saved::Clean), Ok(()));
    assert_eq!(g.fs.fsync(fh, Saved::Failed), Err(Errno::EIO));
    assert_eq!(g.fs.release(fh, Saved::Failed), Err(Errno::EIO));
    assert_eq!(g.fs.handle_access(fh), None);
}

#[test]
fn the_last_writer_wins() {
    let mut g = Guarded::new(Some(b"abc"));
    let a = g.open(libc::O_WRONLY);
    let b = g.open(libc::O_WRONLY);
    assert_ne!(a, b);
    g.fs.write(ROOT, a, 0, b"first").unwrap();
    g.fs.write(ROOT, b, 0, b"second").unwrap();
    g.release(b).unwrap();
    g.release(a).unwrap();
    assert_eq!(g.store.as_deref().unwrap(), b"first");
}

#[test]
fn path_truncate_resizes_the_stored_contents() {
    let mut g = Guarded::new(Some(b"abcdef"));
    let reader = g.open(libc::O_RDONLY);
    g.truncate(Some(reader), 3).unwrap();
    assert_eq!(g.store.as_deref().unwrap(), b"abc");
    g.truncate(None, 5).unwrap();
    assert_eq!(g.store.as_deref().unwrap(), b"abc\0\0");
    assert_eq!(g.fs.size(), 5);
    assert_eq!(g.read(reader, 0, 10).unwrap(), b"abc\0\0");
}

#[test]
fn callers_are_authorized_by_the_decision() {
    let info = || ProcessInfo {
        pid: 5,
        start_time: 6,
        binary_path: FilePath::from_text("/bin/x"),
        binary_name: "x".to_string(),
        script: None,
        parent_chain: vec![],
        code_signature: None,
    };
    let allowed: Result<(ProcessInfo, Decision), ()> = Ok((info(), Decision::AllowOnce));
    assert_eq!(authorize(allowed).unwrap().pid, 5);
    let denied: Result<(ProcessInfo, Decision), ()> = Ok((info(), Decision::DenyOnce));
    assert!(authorize(denied).is_none());
    let unidentified: Result<(ProcessInfo, Decision), ()> = Err(());
    assert!(authorize(unidentified).is_none());
}
