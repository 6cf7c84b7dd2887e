//! A file system with one file: the guarded credential. Opens are authorized
//! per process and direction; a write handle works on a copy that is persisted
//! to the backing store when it is flushed or closed.
use crate::policy::rule::{flags_access, flags_truncate, truncates, Access, Decision};
use crate::process::identify::ProcessInfo;
use crate::text::copy_range;
use crate::time::TimeSpan;
use std::collections::HashMap;
use vstd::prelude::*;

verus! {

broadcast use vstd::std_specs::hash::group_hash_axioms;

/// The errors that an operation is answered with.
#[derive(Debug, Clone, Copy, PartialEq, Eq, Structural)]
pub enum Errno {
    ENOENT,
    EACCES,
    EIO,
}

/// `fuser::INodeNo::ROOT`, the inode number of the file system's root: 1.
#[verifier::external_body]
fn root_ino() -> (r: u64)
    ensures
        r == 1,
{
    fuser::INodeNo::ROOT.0
}

/// What sort of file the guarded file is.
#[derive(Debug, Clone, Copy, PartialEq, Eq, Structural)]
pub enum FileKind {
    RegularFile,
}

/// The attributes of the guarded file, apart from its times.
#[derive(Debug, Clone, Copy, PartialEq, Eq, Structural)]
pub struct FileAttr {
    pub ino: u64,
    pub size: u64,
    pub blocks: u64,
    pub kind: FileKind,
    pub perm: u16,
    pub nlink: u32,
    pub uid: u32,
    pub gid: u32,
    pub rdev: u32,
    pub blksize: u32,
    pub flags: u32,
}

/// The attributes of a file of `size` bytes.
pub open spec fn file_attr(size: u64) -> FileAttr {
    FileAttr {
        ino: 1,
        size,
        blocks: 1,
        kind: FileKind::RegularFile,
        perm: 0o644,
        nlink: 1,
        uid: 0,
        gid: 0,
        rdev: 0,
        blksize: 512,
        flags: 0,
    }
}

/// Zero attribute TTL: the kernel must re-`getattr` rather than trust a cached
/// size. Paired with direct I/O, this keeps the kernel from holding a stale,
/// larger size and writing back cached pages over a file that a truncate has
/// since shrunk — the resurrection that corrupts on editor saves.
pub fn default_ttl() -> (r: TimeSpan)
    ensures
        r.secs == 0,
        r.nanos == 0,
{
    TimeSpan::zero()
}

/// The attributes of a file of `file_size` bytes. It is writable: each
/// write-open is authorized like a read.
pub fn build_file_attr(file_size: u64) -> (r: FileAttr)
    ensures
        r == file_attr(file_size),
{
    FileAttr {
        ino: root_ino(),
        size: file_size,
        blocks: 1,
        kind: FileKind::RegularFile,
        perm: 0o644,
        nlink: 1,
        uid: 0,
        gid: 0,
        rdev: 0,
        blksize: 512,
        flags: 0,
    }
}

// ---------------------------------------------------------------------------
// Contents
// ---------------------------------------------------------------------------

/// The bytes of `content` from `offset` on, at most `size` of them.
pub open spec fn window(content: Seq<u8>, offset: int, size: int) -> Seq<u8> {
    let from = if offset < content.len() {
        offset
    } else {
        content.len() as int
    };
    let to = if from + size < content.len() {
        from + size
    } else {
        content.len() as int
    };
    content.subrange(from, to)
}

/// `content` cut off or filled up with zeros to `len` bytes.
pub open spec fn resized(content: Seq<u8>, len: int) -> Seq<u8> {
    Seq::new(
        len as nat,
        |i: int|
            if i < content.len() {
                content[i]
            } else {
                0u8
            },
    )
}

/// `content` with `data` written over it from `offset` on. It grows where the
/// data ends beyond it, and a gap before the data is filled with zeros.
pub open spec fn overwritten(content: Seq<u8>, offset: int, data: Seq<u8>) -> Seq<u8> {
    let end = offset + data.len();
    let base = if end > content.len() {
        resized(content, end)
    } else {
        content
    };
    Seq::new(
        base.len(),
        |i: int|
            if offset <= i < end {
                data[i - offset]
            } else {
                base[i]
            },
    )
}

/// The part of `content` that a read of `size` bytes at `offset` gives.
pub fn slice_content(content: &[u8], offset: u64, size: u32) -> (r: &[u8])
    ensures
        r@ == window(content@, offset as int, size as int),
{
    let content_len: usize = content.len();
    if offset >= content_len as u64 {
        return vstd::slice::slice_subrange(content, content_len, content_len);
    }
    let start: usize = offset as usize;
    let remaining: usize = content_len - start;
    let read_size: usize = if (size as u64) < remaining as u64 {
        size as usize
    } else {
        remaining
    };
    vstd::slice::slice_subrange(content, start, start + read_size)
}

fn resize(content: &mut Vec<u8>, len: usize)
    ensures
        final(content)@ == resized(old(content)@, len as int),
{
    let ghost before = content@;
    content.resize(len, 0);
    proof {
        if len > before.len() {
            assert forall|i: int| 0 <= i < len implies content@[i] == resized(before, len as int)[i] by {
                if i < before.len() {
                    assert(content@.subrange(0, before.len() as int)[i] == content@[i]);
                }
            }
        }
        assert(content@ =~= resized(before, len as int));
    }
}

/// What the store holds; nothing stored yet counts as an empty file.
pub open spec fn content_of(stored: Option<Seq<u8>>) -> Seq<u8> {
    match stored {
        Some(c) => c,
        None => Seq::empty(),
    }
}

/// The bytes of an optional vector.
pub open spec fn opt_bytes(v: Option<Vec<u8>>) -> Option<Seq<u8>> {
    match v {
        Some(b) => Some(b@),
        None => None,
    }
}

/// The contents to serve: what was read from the store, or an empty file. A
/// read error is, in practice, "not stored yet" (new file). Genuine IO errors
/// on the root-owned store are surfaced by the write path.
pub fn read_store_or_empty(stored: Option<Vec<u8>>) -> (r: Vec<u8>)
    ensures
        r@ == content_of(opt_bytes(stored)),
{
    match stored {
        Some(content) => content,
        None => Vec::new(),
    }
}

// ---------------------------------------------------------------------------
// Handles
// ---------------------------------------------------------------------------

/// Per-open-handle state. A write handle keeps a working copy of the file's
/// content (`buf`) which is persisted to the backing store on flush/release;
/// read handles serve directly from the store and keep `buf` empty.
#[derive(Debug)]
pub struct HandleState {
    pub access: Access,
    pub buf: Vec<u8>,
    pub dirty: bool,
}

/// The contents of a [`HandleState`].
pub ghost struct HandleView {
    pub access: Access,
    pub buf: Seq<u8>,
    pub dirty: bool,
}

impl View for HandleState {
    type V = HandleView;

    open spec fn view(&self) -> HandleView {
        HandleView { access: self.access, buf: self.buf@, dirty: self.dirty }
    }
}

/// The open handles of the guarded file.
#[derive(Debug)]
pub struct CredentialFs {
    handles: HashMap<u64, HandleState>,
    next_fh: u64,
    /// Live file size reported by `getattr`, updated as writes/truncates land.
    current_size: u64,
}

/// The state of a [`CredentialFs`].
#[verifier::ext_equal]
pub ghost struct FsView {
    pub handles: Map<u64, HandleView>,
    pub next_fh: u64,
    pub size: u64,
}

impl View for CredentialFs {
    type V = FsView;

    closed spec fn view(&self) -> FsView {
        FsView {
            handles: self.handles@.map_values(|h: HandleState| h@),
            next_fh: self.next_fh,
            size: self.current_size,
        }
    }
}

/// Whether `fh` is an open write handle.
pub open spec fn is_writer(fs: FsView, fh: u64) -> bool {
    fs.handles.contains_key(fh) && fs.handles[fh].access == Access::Write
}

/// The handle number after `n`.
pub open spec fn next_number(n: u64) -> u64 {
    if n == u64::MAX {
        0
    } else {
        (n + 1) as u64
    }
}

/// The state after a handle was registered under the next number.
pub open spec fn registered(fs: FsView, handle: HandleView) -> FsView {
    FsView {
        handles: fs.handles.insert(fs.next_fh, handle),
        next_fh: next_number(fs.next_fh),
        size: fs.size,
    }
}

/// Whether an open with these flags starts from the stored contents.
pub open spec fn preloads(flags: i32) -> bool {
    flags_access(flags) == Access::Write && !flags_truncate(flags)
}

/// The handle that an open with these flags makes. A write handle starts from
/// the file's contents, whether or not the open asks to create the file; only a
/// truncating open starts from nothing. A truncating open empties
/// the file immediately, even if the handle is closed without a write.
pub open spec fn opened_handle(flags: i32, stored: Option<Seq<u8>>) -> HandleView {
    HandleView {
        access: flags_access(flags),
        buf: if preloads(flags) {
            content_of(stored)
        } else {
            Seq::empty()
        },
        dirty: flags_truncate(flags),
    }
}

/// The state after an open with these flags.
pub open spec fn opened(fs: FsView, flags: i32, stored: Option<Seq<u8>>) -> FsView {
    let after = registered(fs, opened_handle(flags, stored));
    if flags_truncate(flags) {
        FsView { size: 0, ..after }
    } else {
        after
    }
}

/// The state after `data` was written at `offset` through the handle `fh`.
pub open spec fn written(fs: FsView, fh: u64, offset: int, data: Seq<u8>) -> FsView {
    let buf = overwritten(fs.handles[fh].buf, offset, data);
    FsView {
        handles: fs.handles.insert(fh, HandleView { buf, dirty: true, ..fs.handles[fh] }),
        size: if buf.len() > fs.size {
            buf.len() as u64
        } else {
            fs.size
        },
        ..fs
    }
}

/// A handle after the file was resized: a write handle's copy follows.
pub open spec fn resized_handle(handle: HandleView, len: int) -> HandleView {
    if handle.access == Access::Write {
        HandleView { buf: resized(handle.buf, len), dirty: true, ..handle }
    } else {
        handle
    }
}

/// Whether a resize concerns one write handle's copy alone.
pub open spec fn resizes_handle(fs: FsView, fh: Option<u64>) -> bool {
    fh is Some && is_writer(fs, fh->0)
}

/// The state after a resize through a write handle.
pub open spec fn handle_resized(fs: FsView, fh: u64, len: u64) -> FsView {
    FsView {
        handles: fs.handles.insert(fh, resized_handle(fs.handles[fh], len as int)),
        size: len,
        ..fs
    }
}

/// The state after every open write handle followed a resize.
pub open spec fn all_resized(fs: FsView, len: u64) -> FsView {
    FsView {
        handles: fs.handles.map_values(|h: HandleView| resized_handle(h, len as int)),
        ..fs
    }
}

/// What has to be stored for the handle `fh`: a write handle's copy, if it has
/// been changed since it was last stored.
pub open spec fn pending(fs: FsView, fh: u64) -> Option<Seq<u8>> {
    if is_writer(fs, fh) && fs.handles[fh].dirty {
        Some(fs.handles[fh].buf)
    } else {
        None
    }
}

/// The state after `len` bytes were stored for the handle `fh`.
pub open spec fn persisted(fs: FsView, fh: u64, len: u64) -> FsView {
    FsView {
        handles: if fs.handles.contains_key(fh) {
            fs.handles.insert(fh, HandleView { dirty: false, ..fs.handles[fh] })
        } else {
            fs.handles
        },
        size: len,
        ..fs
    }
}

/// The state without the handle `fh`.
pub open spec fn closed_handle(fs: FsView, fh: u64) -> FsView {
    FsView { handles: fs.handles.remove(fh), ..fs }
}

/// Whether a request to change the file's attributes may go ahead.
#[derive(Debug, Clone, Copy, PartialEq, Eq, Structural)]
pub enum Gate {
    /// It changes nothing that is enforced.
    Pass,
    /// It resizes the file through a handle that was opened for writing.
    Resize,
    /// It resizes the file, and the caller has to be authorized to write.
    Authorize,
    /// It is refused.
    Refuse(Errno),
}

/// How a resize is carried out.
#[derive(Debug, Clone, Copy, PartialEq, Eq, Structural)]
pub enum Truncation {
    /// It is done: a write handle's copy has the new size.
    Done,
    /// The stored contents have to be resized too.
    Store,
}

/// What came of storing a handle's pending contents.
#[derive(Debug, Clone, Copy, PartialEq, Eq, Structural)]
pub enum Saved {
    /// There were none.
    Clean,
    /// This many bytes were stored.
    Stored(u64),
    /// They could not be stored.
    Failed,
}

/// Whether a request to change attributes goes ahead: a resize is a write and
/// the easiest write-bypass to miss, so it needs a write handle or an authorized
/// caller, and a read handle may not resize.
pub open spec fn gate(fs: FsView, ino: u64, size: Option<u64>, fh: Option<u64>) -> Gate {
    if ino != 1 {
        Gate::Refuse(Errno::ENOENT)
    } else if size is None {
        Gate::Pass
    } else if fh is Some && fs.handles.contains_key(fh->0) {
        if is_writer(fs, fh->0) {
            Gate::Resize
        } else {
            Gate::Refuse(Errno::EACCES)
        }
    } else {
        Gate::Authorize
    }
}

/// The state after storing pending contents of `fh` came to `saved`. On failure
/// the handle stays dirty, so that a later flush or release retries.
pub open spec fn after_saving(fs: FsView, fh: u64, saved: Saved) -> FsView {
    match saved {
        Saved::Clean => fs,
        Saved::Stored(len) => persisted(fs, fh, len),
        Saved::Failed => fs,
    }
}

/// The caller, if it was identified and the decision allows the access.
pub fn authorize<E>(caller: Result<(ProcessInfo, Decision), E>) -> (r: Option<ProcessInfo>)
    ensures
        r == match caller {
            Ok((info, decision)) => if decision.allows() {
                Some(info)
            } else {
                None
            },
            Err(_) => None,
        },
{
    match caller {
        Ok((info, decision)) => {
            if decision.is_allowed() {
                Some(info)
            } else {
                None
            }
        },
        Err(_) => None,
    }
}

impl CredentialFs {
    /// The file system over what was read from the store. An absent store entry
    /// is tolerated (the watched file may not exist yet): an empty file is
    /// served, and an authorized writer populates it.
    pub fn new(stored: Option<Vec<u8>>) -> (r: CredentialFs)
        ensures
            r@.handles == Map::<u64, HandleView>::empty(),
            r@.next_fh == 1,
            r@.size == content_of(opt_bytes(stored)).len(),
    {
        let file_size: u64 = match &stored {
            Some(content) => content.len() as u64,
            None => 0,
        };
        let r = CredentialFs { handles: HashMap::new(), next_fh: 1, current_size: file_size };
        assert(r@.handles =~= Map::<u64, HandleView>::empty());
        r
    }

    /// The live file size.
    pub fn size(&self) -> (r: u64)
        ensures
            r == self@.size,
    {
        self.current_size
    }

    fn set_size(&mut self, size: u64)
        ensures
            final(self)@ == (FsView { size, ..old(self)@ }),
    {
        self.current_size = size;
    }

    fn grow_size_to(&mut self, size: u64)
        ensures
            final(self)@ == (FsView {
                size: if size > old(self)@.size {
                    size
                } else {
                    old(self)@.size
                },
                ..old(self)@
            }),
    {
        if size > self.current_size {
            self.current_size = size;
        }
    }

    /// Gives `state` the next handle number.
    pub fn register_handle(&mut self, state: HandleState) -> (fh: u64)
        ensures
            fh == old(self)@.next_fh,
            final(self)@ == registered(old(self)@, state@),
    {
        let ghost before = self@;
        let ghost h = state@;
        let fh: u64 = self.next_fh;
        self.next_fh = fh.wrapping_add(1);
        self.handles.insert(fh, state);
        assert(self@ =~= registered(before, h));
        fh
    }

    /// The direction that an open handle was authorized for.
    pub fn handle_access(&self, fh: u64) -> (r: Option<Access>)
        ensures
            r == (if self@.handles.contains_key(fh) {
                Some(self@.handles[fh].access)
            } else {
                None
            }),
    {
        match self.handles.get(&fh) {
            Some(s) => Some(s.access),
            None => None,
        }
    }

    /// Puts `state` in place of the handle `fh`.
    fn replace(&mut self, fh: u64, state: HandleState)
        ensures
            final(self)@ == (FsView {
                handles: old(self)@.handles.insert(fh, state@),
                ..old(self)@
            }),
    {
        let ghost before = self@;
        let ghost h = state@;
        self.handles.insert(fh, state);
        assert(self@.handles =~= before.handles.insert(fh, h));
    }

    /// Takes out the handle `fh`.
    fn take(&mut self, fh: u64) -> (r: Option<HandleState>)
        ensures
            final(self)@ == closed_handle(old(self)@, fh),
            match r {
                Some(h) => old(self)@.handles.contains_key(fh) && h@ == old(self)@.handles[fh],
                None => !old(self)@.handles.contains_key(fh),
            },
    {
        let ghost before = self@;
        let r = self.handles.remove(&fh);
        assert(self@.handles =~= before.handles.remove(fh));
        r
    }

    /// Attributes of the inode `ino`: only the root exists.
    pub fn getattr(&self, ino: u64) -> (r: Result<FileAttr, Errno>)
        ensures
            r == (if ino == 1 {
                Ok(file_attr(self@.size))
            } else {
                Err(Errno::ENOENT)
            }),
    {
        if ino != root_ino() {
            return Err(Errno::ENOENT);
        }
        Ok(build_file_attr(self.current_size))
    }

    /// There is nothing below the guarded file.
    pub fn lookup(&self) -> (r: Errno)
        ensures
            r == Errno::ENOENT,
    {
        Errno::ENOENT
    }

    /// The direction that has to be authorized before an open goes ahead.
    pub fn open_access(ino: u64, flags: i32) -> (r: Result<Access, Errno>)
        ensures
            r == (if ino == 1 {
                Ok(flags_access(flags))
            } else {
                Err(Errno::ENOENT)
            }),
    {
        if ino != root_ino() {
            return Err(Errno::ENOENT);
        }
        Ok(Access::from_open_flags(flags))
    }

    /// Whether an open with these flags needs the stored contents.
    pub fn open_preloads(flags: i32) -> (r: bool)
        ensures
            r == preloads(flags),
    {
        Access::from_open_flags(flags) == Access::Write && !truncates(flags)
    }

    /// Opens the file, if the caller was authorized, and returns the handle's
    /// number. `stored` is what was read from the store.
    pub fn open(&mut self, ino: u64, flags: i32, authorized: bool, stored: Option<Vec<u8>>) -> (r:
        Result<u64, Errno>)
        ensures
            if ino != 1 {
                r == Err::<u64, Errno>(Errno::ENOENT) && final(self)@ == old(self)@
            } else if !authorized {
                r == Err::<u64, Errno>(Errno::EACCES) && final(self)@ == old(self)@
            } else {
                r == Ok::<u64, Errno>(old(self)@.next_fh) && final(self)@ == opened(
                    old(self)@,
                    flags,
                    opt_bytes(stored),
                )
            },
    {
        if ino != root_ino() {
            return Err(Errno::ENOENT);
        }
        if !authorized {
            return Err(Errno::EACCES);
        }
        let access = Access::from_open_flags(flags);
        let truncating = truncates(flags);
        let buf = if access == Access::Write {
            if truncating {
                Vec::new()
            } else {
                read_store_or_empty(stored)
            }
        } else {
            Vec::new()
        };
        let dirty = access == Access::Write && truncating;
        if dirty {
            self.set_size(0);
        }
        let state = HandleState { access, buf, dirty };
        assert(state@ == opened_handle(flags, opt_bytes(stored)));
        Ok(self.register_handle(state))
    }

    /// Whether a read through `fh` needs the stored contents: a write handle
    /// reads back its own working buffer, a read handle reads the store.
    pub fn read_needs_store(&self, ino: u64, fh: u64) -> (r: bool)
        ensures
            r == (ino == 1 && self@.handles.contains_key(fh) && !is_writer(self@, fh)),
    {
        if ino != root_ino() {
            return false;
        }
        match self.handle_access(fh) {
            Some(access) => access != Access::Write,
            None => false,
        }
    }

    /// Reads up to `size` bytes at `offset` through `fh`. A write handle reads
    /// back its own working buffer; a read handle reads the store, whose contents
    /// are `stored`. An unknown handle was never authorized.
    pub fn read(&self, ino: u64, fh: u64, offset: u64, size: u32, stored: Option<Vec<u8>>) -> (r:
        Result<Vec<u8>, Errno>)
        ensures
            if ino != 1 {
                r matches Err(e) && e == Errno::ENOENT
            } else if !self@.handles.contains_key(fh) {
                r matches Err(e) && e == Errno::EACCES
            } else {
                r matches Ok(data) && data@ == window(
                    if is_writer(self@, fh) {
                        self@.handles[fh].buf
                    } else {
                        content_of(opt_bytes(stored))
                    },
                    offset as int,
                    size as int,
                )
            },
    {
        if ino != root_ino() {
            return Err(Errno::ENOENT);
        }
        match self.handles.get(&fh) {
            None => Err(Errno::EACCES),
            Some(s) => {
                if s.access == Access::Write {
                    let data = slice_content(s.buf.as_slice(), offset, size);
                    Ok(vstd::slice::slice_to_vec(data))
                } else {
                    let content = read_store_or_empty(stored);
                    let data = slice_content(content.as_slice(), offset, size);
                    Ok(vstd::slice::slice_to_vec(data))
                }
            },
        }
    }

    /// Writes `data` at `offset` into the working copy of the write handle `fh`,
    /// and returns how many bytes were written.
    pub fn write(&mut self, ino: u64, fh: u64, offset: u64, data: &[u8]) -> (r: Result<u32, Errno>)
        requires
            ino == 1 && is_writer(old(self)@, fh) ==> offset + data@.len() <= isize::MAX,
        ensures
            if ino != 1 {
                r == Err::<u32, Errno>(Errno::ENOENT) && final(self)@ == old(self)@
            } else if !is_writer(old(self)@, fh) {
                r == Err::<u32, Errno>(Errno::EACCES) && final(self)@ == old(self)@
            } else {
                (r matches Ok(n) && n == data@.len() % 0x1_0000_0000) && final(self)@ == written(
                    old(self)@,
                    fh,
                    offset as int,
                    data@,
                )
            },
    {
        if ino != root_ino() {
            return Err(Errno::ENOENT);
        }
        match self.handle_access(fh) {
            Some(Access::Write) => {},
            _ => return Err(Errno::EACCES),
        }
        let ghost before = self@;
        let mut state = match self.take(fh) {
            Some(s) => s,
            None => return Err(Errno::EACCES),
        };
        let ghost content = state.buf@;
        let start: usize = offset as usize;
        let end: usize = start + data.len();
        if state.buf.len() < end {
            resize(&mut state.buf, end);
        }
        let ghost base = state.buf@;
        let mut i: usize = 0;
        while i < data.len()
            invariant
                i <= data@.len(),
                start + data@.len() == end,
                end <= base.len() <= usize::MAX,
                state.access == Access::Write,
                state.buf@ == Seq::new(
                    base.len(),
                    |j: int|
                        if start <= j < start + i {
                            data@[j - start]
                        } else {
                            base[j]
                        },
                ),
            decreases data@.len() - i,
        {
            state.buf.set(start + i, data[i]);
            i = i + 1;
            assert(state.buf@ =~= Seq::new(
                base.len(),
                |j: int|
                    if start <= j < start + i {
                        data@[j - start]
                    } else {
                        base[j]
                    },
            ));
        }
        assert(state.buf@ =~= overwritten(content, offset as int, data@));
        state.dirty = true;
        let new_len: u64 = state.buf.len() as u64;
        self.replace(fh, state);
        self.grow_size_to(new_len);
        assert(self@ =~= written(before, fh, offset as int, data@));
        let n: u64 = data.len() as u64;
        assert(n as u32 == n % 0x1_0000_0000) by (bit_vector);
        Ok(
            #[verifier::truncate]
            (n as u32),
        )
    }

    /// Whether a request to change attributes may go ahead. The only attribute
    /// that is enforced is the size.
    pub fn setattr_gate(&self, ino: u64, size: Option<u64>, fh: Option<u64>) -> (r: Gate)
        ensures
            r == gate(self@, ino, size, fh),
    {
        if ino != root_ino() {
            return Gate::Refuse(Errno::ENOENT);
        }
        if size.is_none() {
            return Gate::Pass;
        }
        let access = match fh {
            Some(h) => self.handle_access(h),
            None => None,
        };
        match access {
            Some(Access::Write) => Gate::Resize,
            Some(_) => Gate::Refuse(Errno::EACCES),
            None => Gate::Authorize,
        }
    }

    /// Apply a truncate to the open handles: to the copy of the write handle
    /// that it came through or, when there is none, to every open write handle's
    /// copy. In the second case the stored contents have to be resized too (see
    /// [`Self::finish_truncate`]). A handle opened before the truncate still
    /// holds the older, longer content; left untouched it would re-persist that
    /// stale buffer on release and silently revert the truncate.
    pub fn apply_truncate(&mut self, fh: Option<u64>, new_size: u64) -> (r: Truncation)
        requires
            new_size <= isize::MAX,
        ensures
            resizes_handle(old(self)@, fh) ==> r == Truncation::Done && final(self)@
                == handle_resized(old(self)@, fh->0, new_size),
            !resizes_handle(old(self)@, fh) ==> r == Truncation::Store && final(self)@
                == all_resized(old(self)@, new_size),
    {
        let n: usize = new_size as usize;
        let ghost before = self@;
        if let Some(h) = fh {
            if let Some(Access::Write) = self.handle_access(h) {
                if let Some(state) = self.take(h) {
                    let mut state = state;
                    resize(&mut state.buf, n);
                    state.dirty = true;
                    self.replace(h, state);
                    self.set_size(new_size);
                    assert(self@ =~= handle_resized(before, h, new_size));
                    return Truncation::Done;
                }
            }
        }
        self.resize_writers(n);
        Truncation::Store
    }

    /// The numbers of the open handles.
    fn handle_numbers(&self) -> (r: Vec<u64>)
        ensures
            r@.to_set() == self@.handles.dom(),
            r@.no_duplicates(),
    {
        let mut r: Vec<u64> = Vec::new();
        for k in it: self.handles.keys()
            invariant
                r@ == it.seq().unref().take(it.index()),
                it.index() == it.seq().len() ==> r@ =~= it.seq().unref(),
                it.seq().no_duplicates(),
                it.seq().unref().to_set() == self.handles@.dom(),
        {
            r.push(*k);
        }
        assert(self@.handles.dom() =~= self.handles@.dom());
        r
    }

    /// Resizes the copy of every write handle.
    fn resize_writers(&mut self, n: usize)
        ensures
            final(self)@ == all_resized(old(self)@, n as u64),
    {
        let ghost before = self@;
        let numbers = self.handle_numbers();
        let mut i: usize = 0;
        while i < numbers.len()
            invariant
                i <= numbers@.len(),
                numbers@.no_duplicates(),
                numbers@.to_set() == before.handles.dom(),
                self@.handles.dom() == before.handles.dom(),
                self@.next_fh == before.next_fh,
                self@.size == before.size,
                forall|j: int|
                    0 <= j < numbers@.len() ==> self@.handles[#[trigger] numbers@[j]] == (if j < i {
                        resized_handle(before.handles[numbers@[j]], n as int)
                    } else {
                        before.handles[numbers@[j]]
                    }),
            decreases numbers@.len() - i,
        {
            let h: u64 = numbers[i];
            assert(numbers@.to_set().contains(h));
            let ghost mid = self@;
            if let Some(state) = self.take(h) {
                let mut state = state;
                if state.access == Access::Write {
                    resize(&mut state.buf, n);
                    state.dirty = true;
                }
                self.replace(h, state);
            }
            assert(self@.handles.dom() =~= before.handles.dom());
            i = i + 1;
        }
        assert forall|k: u64| before.handles.contains_key(k) implies #[trigger] self@.handles[k]
            == resized_handle(before.handles[k], n as int) by {
            assert(numbers@.to_set().contains(k));
            let j = choose|j: int| 0 <= j < numbers@.len() && numbers@[j] == k;
            assert(numbers@[j] == k);
        }
        assert(self@ =~= all_resized(before, n as u64));
    }

    /// The stored contents after a resize.
    pub fn truncated_content(stored: Option<Vec<u8>>, new_size: u64) -> (r: Vec<u8>)
        requires
            new_size <= isize::MAX,
        ensures
            r@ == resized(content_of(opt_bytes(stored)), new_size as int),
    {
        let mut content = read_store_or_empty(stored);
        resize(&mut content, new_size as usize);
        content
    }

    /// Completes a resize whose contents were to be stored.
    pub fn finish_truncate(&mut self, new_size: u64, stored: bool) -> (r: Result<(), Errno>)
        ensures
            stored ==> r == Ok::<(), Errno>(()) && final(self)@ == (FsView {
                size: new_size,
                ..old(self)@
            }),
            !stored ==> r == Err::<(), Errno>(Errno::EIO) && final(self)@ == old(self)@,
    {
        if !stored {
            return Err(Errno::EIO);
        }
        self.set_size(new_size);
        Ok(())
    }

    /// What has to be stored before a flush, fsync or release of `fh` is
    /// answered.
    pub fn persist_handle(&self, ino: u64, fh: u64) -> (r: Result<Option<Vec<u8>>, Errno>)
        ensures
            if ino != 1 {
                r matches Err(e) && e == Errno::ENOENT
            } else {
                r matches Ok(buf) && opt_bytes(buf) == pending(self@, fh)
            },
    {
        if ino != root_ino() {
            return Err(Errno::ENOENT);
        }
        match self.handles.get(&fh) {
            Some(s) => {
                if s.access == Access::Write && s.dirty {
                    let buf = copy_range(&s.buf, 0, s.buf.len());
                    assert(buf@ =~= s.buf@);
                    Ok(Some(buf))
                } else {
                    Ok(None)
                }
            },
            None => Ok(None),
        }
    }

    /// Answers a flush of `fh`, once its pending contents have been stored or
    /// not.
    pub fn flush(&mut self, fh: u64, saved: Saved) -> (r: Result<(), Errno>)
        ensures
            final(self)@ == after_saving(old(self)@, fh, saved),
            r == (if saved == Saved::Failed {
                Err::<(), Errno>(Errno::EIO)
            } else {
                Ok(())
            }),
    {
        let ghost before = self@;
        match saved {
            Saved::Clean => Ok(()),
            Saved::Failed => Err(Errno::EIO),
            Saved::Stored(len) => {
                if let Some(state) = self.take(fh) {
                    let mut state = state;
                    state.dirty = false;
                    self.replace(fh, state);
                    assert(self@.handles =~= persisted(before, fh, len).handles);
                } else {
                    assert(self@.handles =~= before.handles);
                }
                self.set_size(len);
                Ok(())
            },
        }
    }

    /// Answers an fsync of `fh`, as [`Self::flush`] does.
    pub fn fsync(&mut self, fh: u64, saved: Saved) -> (r: Result<(), Errno>)
        ensures
            final(self)@ == after_saving(old(self)@, fh, saved),
            r == (if saved == Saved::Failed {
                Err::<(), Errno>(Errno::EIO)
            } else {
                Ok(())
            }),
    {
        self.flush(fh, saved)
    }

    /// Closes `fh`, once its pending contents have been stored or not. The
    /// handle is gone either way.
    pub fn release(&mut self, fh: u64, saved: Saved) -> (r: Result<(), Errno>)
        ensures
            final(self)@ == closed_handle(after_saving(old(self)@, fh, saved), fh),
            r == (if saved == Saved::Failed {
                Err::<(), Errno>(Errno::EIO)
            } else {
                Ok(())
            }),
    {
        let r = self.flush(fh, saved);
        let _ = self.take(fh);
        r
    }
}

// ---------------------------------------------------------------------------
// The guarded file as a whole
// ---------------------------------------------------------------------------

/// The handles and the stored contents of the guarded file.
pub ghost struct Guarded {
    pub fs: FsView,
    pub store: Option<Seq<u8>>,
}

/// After an authorized open; the new handle is number `g.fs.next_fh`.
pub open spec fn open_file(g: Guarded, flags: i32) -> Guarded {
    Guarded { fs: opened(g.fs, flags, g.store), ..g }
}

/// What a read through an open handle gives.
pub open spec fn read_file(g: Guarded, fh: u64, offset: int, size: int) -> Seq<u8> {
    window(
        if is_writer(g.fs, fh) {
            g.fs.handles[fh].buf
        } else {
            content_of(g.store)
        },
        offset,
        size,
    )
}

/// After a write through a write handle.
pub open spec fn write_file(g: Guarded, fh: u64, offset: int, data: Seq<u8>) -> Guarded {
    Guarded { fs: written(g.fs, fh, offset, data), ..g }
}

/// After a truncate, the store having worked.
pub open spec fn truncate_file(g: Guarded, fh: Option<u64>, len: u64) -> Guarded {
    if resizes_handle(g.fs, fh) {
        Guarded { fs: handle_resized(g.fs, fh->0, len), ..g }
    } else {
        Guarded {
            fs: FsView { size: len, ..all_resized(g.fs, len) },
            store: Some(resized(content_of(g.store), len as int)),
        }
    }
}

/// After a flush, the store having worked.
pub open spec fn flush_file(g: Guarded, fh: u64) -> Guarded {
    match pending(g.fs, fh) {
        Some(buf) => Guarded {
            fs: after_saving(g.fs, fh, Saved::Stored(buf.len() as u64)),
            store: Some(buf),
        },
        None => Guarded { fs: after_saving(g.fs, fh, Saved::Clean), ..g },
    }
}

/// After a release, the store having worked.
pub open spec fn release_file(g: Guarded, fh: u64) -> Guarded {
    let flushed = flush_file(g, fh);
    Guarded { fs: closed_handle(flushed.fs, fh), ..flushed }
}

/// A truncate that carries no write handle is not undone by one that was open
/// before it: whichever write handle is released next, the file keeps the new
/// size.
pub proof fn law_truncates_are_not_reverted(g: Guarded, fh: Option<u64>, len: u64, writer: u64)
    requires
        !resizes_handle(g.fs, fh),
        is_writer(g.fs, writer),
    ensures
        truncate_file(g, fh, len).store == Some(resized(content_of(g.store), len as int)),
        release_file(truncate_file(g, fh, len), writer).store == Some(
            resized(g.fs.handles[writer].buf, len as int),
        ),
        release_file(truncate_file(g, fh, len), writer).store->0.len() == len,
        release_file(truncate_file(g, fh, len), writer).fs.size == len,
{
}

/// A truncate through a write handle resizes what that handle persists, and
/// nothing else.
pub proof fn law_handle_truncates_reach_the_store(g: Guarded, fh: u64, len: u64, other: u64)
    requires
        is_writer(g.fs, fh),
    ensures
        release_file(truncate_file(g, Some(fh), len), fh).store == Some(
            resized(g.fs.handles[fh].buf, len as int),
        ),
        truncate_file(g, Some(fh), len).store == g.store,
        other != fh && g.fs.handles.contains_key(other) ==> truncate_file(
            g,
            Some(fh),
            len,
        ).fs.handles[other] == g.fs.handles[other],
{
}

/// A handle opened for writing, and not truncating, starts as a copy of the
/// file's contents, of which nothing has to be stored: reading through it gives
/// the contents, and closing it unwritten leaves them as they were.
pub proof fn law_write_handles_start_from_the_contents(g: Guarded, flags: i32)
    requires
        flags_access(flags) == Access::Write,
        !flags_truncate(flags),
    ensures
        ({
            let content = content_of(g.store);
            let fh = g.fs.next_fh;
            &&& read_file(open_file(g, flags), fh, 0, content.len() as int) == content
            &&& pending(open_file(g, flags).fs, fh) is None
            &&& release_file(open_file(g, flags), fh).store == g.store
            &&& open_file(g, flags).fs.size == g.fs.size
        }),
{
    let content = content_of(g.store);
    assert(window(content, 0, content.len() as int) =~= content);
}

/// A write handle reads back what was written through it, and the bytes around
/// it are unchanged.
pub proof fn law_writes_are_read_back(g: Guarded, fh: u64, offset: int, data: Seq<u8>)
    requires
        is_writer(g.fs, fh),
        0 <= offset,
    ensures
        read_file(write_file(g, fh, offset, data), fh, offset, data.len() as int) == data,
        forall|i: int|
            0 <= i < g.fs.handles[fh].buf.len() && !(offset <= i < offset + data.len())
                ==> #[trigger] write_file(g, fh, offset, data).fs.handles[fh].buf[i]
                == g.fs.handles[fh].buf[i],
{
    assert(read_file(write_file(g, fh, offset, data), fh, offset, data.len() as int) =~= data);
}

/// Once a write handle has been released, every read handle reads exactly the
/// contents that it had.
pub proof fn law_released_writes_are_served(
    g: Guarded,
    fh: u64,
    offset: int,
    data: Seq<u8>,
    reader_flags: i32,
    from: int,
    size: int,
)
    requires
        is_writer(g.fs, fh),
        0 <= offset,
        flags_access(reader_flags) == Access::Read,
    ensures
        ({
            let closed = release_file(write_file(g, fh, offset, data), fh);
            let reader = closed.fs.next_fh;
            &&& read_file(open_file(closed, reader_flags), reader, from, size) == window(
                overwritten(g.fs.handles[fh].buf, offset, data),
                from,
                size,
            )
        }),
{
}

/// An editor's save — opening in place, overwriting the head with new contents
/// and cutting the file off behind them — leaves exactly the new contents, with
/// no tail of the old ones.
pub proof fn law_saving_in_place_leaves_no_stale_tail(g: Guarded, flags: i32, data: Seq<u8>)
    requires
        flags_access(flags) == Access::Write,
        data.len() <= u64::MAX,
    ensures
        ({
            let fh = g.fs.next_fh;
            let edited = write_file(open_file(g, flags), fh, 0, data);
            release_file(truncate_file(edited, Some(fh), data.len() as u64), fh).store == Some(data)
        }),
{
    let fh = g.fs.next_fh;
    let edited = write_file(open_file(g, flags), fh, 0, data);
    assert(resized(edited.fs.handles[fh].buf, data.len() as int) =~= data);
}

/// An open that truncates empties the file, even if nothing is written before
/// the handle is closed.
pub proof fn law_truncating_opens_empty_the_file(g: Guarded, flags: i32)
    requires
        flags_truncate(flags),
    ensures
        open_file(g, flags).fs.size == 0,
        release_file(open_file(g, flags), g.fs.next_fh).store == Some(Seq::<u8>::empty()),
{
}

/// A handle that was opened for reading never changes the file.
pub proof fn law_readers_change_nothing(g: Guarded, fh: u64)
    requires
        !is_writer(g.fs, fh),
    ensures
        flush_file(g, fh) == g,
        release_file(g, fh).store == g.store,
        release_file(g, fh).fs.size == g.fs.size,
{
}

/// Contents that could not be stored stay pending, and contents that were
/// stored do not.
pub proof fn law_failed_stores_are_retried(fs: FsView, fh: u64, len: u64)
    ensures
        pending(after_saving(fs, fh, Saved::Failed), fh) == pending(fs, fh),
        pending(after_saving(fs, fh, Saved::Stored(len)), fh) is None,
{
}

/// Concurrent write handles do not merge: the last one that is released with
/// changes determines the contents.
pub proof fn law_the_last_writer_wins(g: Guarded, first: u64, last: u64)
    requires
        first != last,
        pending(g.fs, last) is Some,
    ensures
        release_file(release_file(g, first), last).store == pending(g.fs, last),
{
}

/// Whether every open handle has a number below the next one.
pub open spec fn numbered(fs: FsView) -> bool {
    forall|k: u64| #[trigger] fs.handles.contains_key(k) ==> k < fs.next_fh
}

/// A handle never takes over the number of another open handle, as long as the
/// numbers last.
pub proof fn law_handle_numbers_are_fresh(fs: FsView, handle: HandleView)
    requires
        numbered(fs),
        fs.next_fh < u64::MAX,
    ensures
        !fs.handles.contains_key(fs.next_fh),
        numbered(registered(fs, handle)),
{
}

/// Writing, resizing, storing and closing leave the numbers of the open handles
/// as they are, apart from the one that is closed.
pub proof fn law_operations_keep_the_handles(g: Guarded, fh: u64, len: u64, data: Seq<u8>)
    ensures
        is_writer(g.fs, fh) ==> write_file(g, fh, len as int, data).fs.handles.dom()
            == g.fs.handles.dom(),
        truncate_file(g, Some(fh), len).fs.handles.dom() == g.fs.handles.dom(),
        truncate_file(g, None, len).fs.handles.dom() == g.fs.handles.dom(),
        flush_file(g, fh).fs.handles.dom() == g.fs.handles.dom(),
        release_file(g, fh).fs.handles.dom() == g.fs.handles.dom().remove(fh),
{
    let dom = g.fs.handles.dom();
    if is_writer(g.fs, fh) {
        assert(write_file(g, fh, len as int, data).fs.handles.dom() =~= dom);
    }
    assert(truncate_file(g, Some(fh), len).fs.handles.dom() =~= dom);
    assert(truncate_file(g, None, len).fs.handles.dom() =~= dom);
    assert(flush_file(g, fh).fs.handles.dom() =~= dom);
    assert(release_file(g, fh).fs.handles.dom() =~= dom.remove(fh));
}

/// The reported size is that of the stored contents whenever a handle's changes
/// have been stored.
pub proof fn law_size_follows_the_store(g: Guarded, fh: u64)
    requires
        pending(g.fs, fh) is Some,
        pending(g.fs, fh)->0.len() <= u64::MAX,
    ensures
        flush_file(g, fh).fs.size == content_of(flush_file(g, fh).store).len(),
{
}

/// A read gives as many bytes as were asked for and are there, each the byte of
/// the contents at its place: all up to the end where more is asked for than is
/// left, and none from the end on.
pub proof fn law_reads_give_what_is_there(content: Seq<u8>, offset: int, size: int)
    requires
        0 <= offset,
        0 <= size,
    ensures
        offset >= content.len() ==> window(content, offset, size).len() == 0,
        offset < content.len() && size <= content.len() - offset ==> window(
            content,
            offset,
            size,
        ).len() == size,
        offset < content.len() && size >= content.len() - offset ==> window(
            content,
            offset,
            size,
        ).len() == content.len() - offset,
        forall|i: int|
            0 <= i < window(content, offset, size).len() ==> #[trigger] window(
                content,
                offset,
                size,
            )[i] == content[offset + i],
        offset == 0 && size >= content.len() ==> window(content, offset, size) == content,
{
    if offset == 0 && size >= content.len() {
        assert(window(content, offset, size) =~= content);
    }
}

/// Reading a file piece by piece gives what reading it at once gives: two reads
/// that follow each other leave nothing out and bring nothing twice.
pub proof fn law_successive_reads_join(content: Seq<u8>, offset: int, first: int, second: int)
    requires
        0 <= offset,
        0 <= first,
        0 <= second,
    ensures
        window(content, offset, first) + window(content, offset + first, second) == window(
            content,
            offset,
            first + second,
        ),
{
    assert(window(content, offset, first) + window(content, offset + first, second) =~= window(
        content,
        offset,
        first + second,
    ));
}

/// A handle that was opened for reading serves the whole of what is stored to a
/// reader that asks for enough, and nothing where nothing is stored.
pub proof fn law_read_handles_serve_the_store(g: Guarded, flags: i32, size: int)
    requires
        flags_access(flags) == Access::Read,
        size >= content_of(g.store).len(),
    ensures
        ({
            let fh = g.fs.next_fh;
            &&& open_file(g, flags).fs.handles.contains_key(fh)
            &&& open_file(g, flags).fs.handles[fh].access == Access::Read
            &&& g.store is Some ==> read_file(open_file(g, flags), fh, 0, size) == g.store->0
            &&& g.store is None ==> read_file(open_file(g, flags), fh, 0, size).len() == 0
            &&& open_file(g, flags).store == g.store
            &&& open_file(g, flags).fs.size == g.fs.size
            &&& pending(open_file(g, flags).fs, fh) is None
        }),
{
    law_reads_give_what_is_there(content_of(g.store), 0, size);
}

/// A resize gives exactly the length asked for: what fits of the contents is
/// kept, and what is added is zeros.
pub proof fn law_resizes_keep_what_fits(content: Seq<u8>, len: int, i: int)
    requires
        0 <= len,
    ensures
        resized(content, len).len() == len,
        0 <= i < len && i < content.len() ==> resized(content, len)[i] == content[i],
        content.len() <= i < len ==> resized(content, len)[i] == 0,
        resized(content, content.len() as int) == content,
{
    assert(resized(content, content.len() as int) =~= content);
}

/// After a write the contents reach exactly to the end of what was there or of
/// what was written, whichever is later. Each byte is the one written at its
/// place, or the one that was there, or a zero in a gap between the two.
pub proof fn law_writes_reach_to_their_end(content: Seq<u8>, offset: int, data: Seq<u8>, i: int)
    requires
        0 <= offset,
    ensures
        offset + data.len() <= content.len() ==> overwritten(content, offset, data).len()
            == content.len(),
        offset + data.len() > content.len() ==> overwritten(content, offset, data).len() == offset
            + data.len(),
        offset <= i < offset + data.len() ==> overwritten(content, offset, data)[i] == data[i
            - offset],
        0 <= i < content.len() && !(offset <= i < offset + data.len()) ==> overwritten(
            content,
            offset,
            data,
        )[i] == content[i],
        content.len() <= i < offset ==> overwritten(content, offset, data)[i] == 0,
{
}

/// Contents that are written in two pieces, one after the other, are the
/// contents written at once.
pub proof fn law_successive_writes_join(
    content: Seq<u8>,
    offset: int,
    first: Seq<u8>,
    second: Seq<u8>,
)
    requires
        0 <= offset,
    ensures
        overwritten(
            overwritten(content, offset, first),
            offset + first.len(),
            second,
        ) == overwritten(content, offset, first + second),
{
    assert(overwritten(
        overwritten(content, offset, first),
        offset + first.len(),
        second,
    ) =~= overwritten(content, offset, first + second));
}

/// A new credential that is written from the start through a truncating open is,
/// once the handle is closed, exactly what is stored, and the reported size is
/// its length. A reader that opens the file then gets it whole.
pub proof fn law_replacing_the_file_leaves_the_new_contents(
    g: Guarded,
    flags: i32,
    data: Seq<u8>,
    reader_flags: i32,
    size: int,
)
    requires
        flags & 0x200i32 != 0,
        data.len() <= u64::MAX,
        reader_flags & 0x603i32 == 0,
        size >= data.len(),
    ensures
        ({
            let fh = g.fs.next_fh;
            let edited = write_file(open_file(g, flags), fh, 0, data);
            let closed = release_file(edited, fh);
            &&& edited.fs.handles[fh].buf == data
            &&& edited.fs.size == data.len()
            &&& closed.store == Some(data)
            &&& closed.fs.size == data.len()
            &&& !closed.fs.handles.contains_key(fh)
            &&& read_file(
                open_file(closed, reader_flags),
                closed.fs.next_fh,
                0,
                size,
            ) == data
        }),
{
    let fh = g.fs.next_fh;
    let edited = write_file(open_file(g, flags), fh, 0, data);
    let closed = release_file(edited, fh);
    assert(edited.fs.handles[fh].buf =~= data);
    assert(reader_flags & 0x3i32 == 0 && reader_flags & 0x200i32 == 0 && reader_flags & 0x400i32
        == 0) by (bit_vector)
        requires
            reader_flags & 0x603i32 == 0,
    ;
    law_reads_give_what_is_there(data, 0, size);
}

/// A write through a handle changes that handle's copy, which then has to be
/// stored, and the reported size, which grows with it and never shrinks. The
/// store and the other handles stay as they are.
pub proof fn law_writes_stay_in_their_handle(
    g: Guarded,
    fh: u64,
    offset: int,
    data: Seq<u8>,
    other: u64,
)
    requires
        g.fs.handles.contains_key(fh),
        g.fs.handles[fh].access == Access::Write,
        0 <= offset,
        offset + data.len() <= u64::MAX,
        g.fs.handles[fh].buf.len() <= u64::MAX,
    ensures
        ({
            let after = write_file(g, fh, offset, data);
            let len = after.fs.handles[fh].buf.len();
            &&& after.fs.handles[fh].access == Access::Write
            &&& pending(after.fs, fh) == Some(after.fs.handles[fh].buf)
            &&& after.fs.size >= len
            &&& after.fs.size == len || after.fs.size == g.fs.size
            &&& after.fs.size >= g.fs.size
            &&& after.fs.next_fh == g.fs.next_fh
            &&& after.store == g.store
            &&& other != fh ==> after.fs.handles.contains_key(other) == g.fs.handles.contains_key(
                other,
            )
            &&& other != fh && g.fs.handles.contains_key(other) ==> after.fs.handles[other]
                == g.fs.handles[other]
        }),
{
}

/// What a write handle reads is its own copy, and any other handle reads what is
/// stored.
pub proof fn law_handles_read_their_own_contents(g: Guarded, fh: u64, size: int)
    requires
        g.fs.handles.contains_key(fh),
    ensures
        g.fs.handles[fh].access == Access::Write && size >= g.fs.handles[fh].buf.len()
            ==> read_file(g, fh, 0, size) == g.fs.handles[fh].buf,
        g.fs.handles[fh].access != Access::Write && g.store is Some && size >= g.store->0.len()
            ==> read_file(g, fh, 0, size) == g.store->0,
        g.fs.handles[fh].access != Access::Write && g.store is None && size >= 0 ==> read_file(
            g,
            fh,
            0,
            size,
        ).len() == 0,
{
    let content = if g.fs.handles[fh].access == Access::Write {
        g.fs.handles[fh].buf
    } else {
        content_of(g.store)
    };
    if size >= 0 {
        law_reads_give_what_is_there(content, 0, size);
    }
}

/// Only a handle that is open, and open for writing, has anything to store: its
/// whole copy, and only while that has been changed.
pub proof fn law_only_changed_copies_are_stored(fs: FsView, fh: u64)
    ensures
        pending(fs, fh) is Some <==> fs.handles.contains_key(fh) && fs.handles[fh].access
            == Access::Write && fs.handles[fh].dirty,
        pending(fs, fh) is Some ==> pending(fs, fh)->0 == fs.handles[fh].buf,
        is_writer(fs, fh) <==> fs.handles.contains_key(fh) && fs.handles[fh].access
            == Access::Write,
{
}

/// A flush stores the handle's copy as it is and leaves the handle open with it;
/// closing takes that handle away. Other handles do not notice either.
pub proof fn law_flushes_store_the_copy(g: Guarded, fh: u64, other: u64)
    requires
        pending(g.fs, fh) is Some,
        g.fs.handles[fh].buf.len() <= u64::MAX,
    ensures
        flush_file(g, fh).store == Some(g.fs.handles[fh].buf),
        flush_file(g, fh).fs.size == g.fs.handles[fh].buf.len(),
        flush_file(g, fh).fs.next_fh == g.fs.next_fh,
        flush_file(g, fh).fs.handles.contains_key(fh),
        flush_file(g, fh).fs.handles[fh].buf == g.fs.handles[fh].buf,
        flush_file(g, fh).fs.handles[fh].access == g.fs.handles[fh].access,
        flush_file(flush_file(g, fh), fh) == flush_file(g, fh),
        release_file(g, fh).store == flush_file(g, fh).store,
        release_file(g, fh).fs.size == flush_file(g, fh).fs.size,
        release_file(g, fh).fs.next_fh == g.fs.next_fh,
        !release_file(g, fh).fs.handles.contains_key(fh),
        other != fh && g.fs.handles.contains_key(other) ==> flush_file(g, fh).fs.handles[other]
            == g.fs.handles[other] && release_file(g, fh).fs.handles.contains_key(other)
            && release_file(g, fh).fs.handles[other] == g.fs.handles[other],
{
}

/// What came of storing shows in the size, which is that of what was stored, and
/// in the handle, which has nothing to store any more; nothing changes where there
/// was nothing to store or it could not be stored.
pub proof fn law_the_size_is_what_was_stored(fs: FsView, fh: u64, len: u64, h: u64)
    ensures
        after_saving(fs, fh, Saved::Clean) == fs,
        after_saving(fs, fh, Saved::Failed) == fs,
        after_saving(fs, fh, Saved::Stored(len)).size == len,
        after_saving(fs, fh, Saved::Stored(len)).next_fh == fs.next_fh,
        after_saving(fs, fh, Saved::Stored(len)).handles.dom() == fs.handles.dom(),
        fs.handles.contains_key(h) ==> {
            let after = after_saving(fs, fh, Saved::Stored(len)).handles[h];
            &&& after.access == fs.handles[h].access
            &&& after.buf == fs.handles[h].buf
            &&& after.dirty == (h != fh && fs.handles[h].dirty)
        },
{
    assert(after_saving(fs, fh, Saved::Stored(len)).handles.dom() =~= fs.handles.dom());
}

/// An open adds one handle, under the next number and in the direction of its
/// flags, and leaves the others as they are. A write handle starts from what is
/// stored unless the open truncates; a handle for reading keeps no copy.
pub proof fn law_opens_add_one_handle(g: Guarded, flags: i32, other: u64)
    requires
        other != g.fs.next_fh,
    ensures
        ({
            let fh = g.fs.next_fh;
            let after = open_file(g, flags);
            &&& after.fs.handles.contains_key(fh)
            &&& after.fs.handles[fh].access == flags_access(flags)
            &&& flags & 0x200i32 != 0 || flags_access(flags) == Access::Read
                ==> after.fs.handles[fh].buf.len() == 0
            &&& flags & 0x200i32 == 0 && flags_access(flags) == Access::Write && g.store is Some
                ==> after.fs.handles[fh].buf == g.store->0
            &&& flags & 0x200i32 == 0 && g.store is None ==> after.fs.handles[fh].buf.len() == 0
            &&& after.fs.handles[fh].dirty == (flags & 0x200i32 != 0)
            &&& flags & 0x200i32 == 0 ==> after.fs.size == g.fs.size
            &&& flags & 0x200i32 != 0 ==> after.fs.size == 0
            &&& after.store == g.store
            &&& after.fs.next_fh == (g.fs.next_fh + 1) % 0x1_0000_0000_0000_0000
            &&& after.fs.handles.contains_key(other) == g.fs.handles.contains_key(other)
            &&& g.fs.handles.contains_key(other) ==> after.fs.handles[other]
                == g.fs.handles[other]
        }),
{
}

/// A write handle needs what is stored to start from, a truncating one and one
/// for reading do not.
pub proof fn law_only_kept_contents_are_preloaded(g: Guarded, flags: i32, stored: Option<Seq<u8>>)
    ensures
        !preloads(flags) ==> opened(g.fs, flags, stored) == opened(g.fs, flags, None),
        preloads(flags) <==> flags_access(flags) == Access::Write && flags & 0x200i32 == 0,
{
}

/// A truncate gives every copy that follows it exactly the new length and the
/// bytes that fit. Through a write handle that is its own copy, otherwise the
/// copy of every write handle and the stored contents; copies that follow have
/// to be stored, and handles for reading stay as they are.
pub proof fn law_truncates_resize_the_copies(g: Guarded, fh: Option<u64>, len: u64, h: u64, i: int)
    requires
        g.fs.handles.contains_key(h),
    ensures
        ({
            let after = truncate_file(g, fh, len);
            let through = fh is Some && g.fs.handles.contains_key(fh->0) && g.fs.handles[fh->0].access
                == Access::Write;
            let follows = g.fs.handles[h].access == Access::Write && (through ==> fh->0 == h);
            &&& after.fs.size == len
            &&& after.fs.next_fh == g.fs.next_fh
            &&& after.fs.handles.contains_key(h)
            &&& !follows ==> after.fs.handles[h] == g.fs.handles[h]
            &&& follows ==> {
                &&& after.fs.handles[h].access == Access::Write
                &&& after.fs.handles[h].buf.len() == len
                &&& 0 <= i < len ==> after.fs.handles[h].buf[i] == (if i < g.fs.handles[h].buf.len() {
                    g.fs.handles[h].buf[i]
                } else {
                    0
                })
                &&& pending(after.fs, h) == Some(after.fs.handles[h].buf)
            }
            &&& through ==> after.store == g.store
            &&& !through ==> {
                &&& after.store is Some
                &&& after.store->0.len() == len
                &&& 0 <= i < len ==> after.store->0[i] == (if g.store is Some && i < g.store->0.len() {
                    g.store->0[i]
                } else {
                    0
                })
            }
        }),
{
}

/// A resize to nothing empties what a truncate to any length would resize.
pub proof fn law_truncates_to_nothing_empty_the_file(g: Guarded)
    ensures
        truncate_file(g, None, 0).store == Some(Seq::<u8>::empty()),
        truncate_file(g, None, 0).fs.size == 0,
{
    assert(truncate_file(g, None, 0).store->0 =~= Seq::<u8>::empty());
}

/// A change of attributes is refused on any other inode, and one that does not
/// resize always passes on the file's own. A resize goes ahead through a handle
/// open for writing, is refused through one open for reading, and needs an
/// authorization of its own in every other case.
pub proof fn law_resizes_need_a_write_authorization(
    fs: FsView,
    ino: u64,
    size: Option<u64>,
    fh: Option<u64>,
)
    ensures
        ino != 1 <==> gate(fs, ino, size, fh) == Gate::Refuse(Errno::ENOENT),
        ino == 1 && size is None <==> gate(fs, ino, size, fh) == Gate::Pass,
        gate(fs, ino, size, fh) == Gate::Resize <==> ino == 1 && size is Some && fh is Some
            && fs.handles.contains_key(fh->0) && fs.handles[fh->0].access == Access::Write,
        gate(fs, ino, size, fh) == Gate::Refuse(Errno::EACCES) <==> ino == 1 && size is Some
            && fh is Some && fs.handles.contains_key(fh->0) && fs.handles[fh->0].access
            != Access::Write,
        gate(fs, ino, size, fh) == Gate::Authorize <==> ino == 1 && size is Some && (fh is None
            || !fs.handles.contains_key(fh->0)),
{
}

/// The attributes tell the size as it is, and nothing else in them varies: a
/// regular file of the root inode that its owner may write and all may read.
pub proof fn law_attributes_tell_the_size(size: u64, other: u64)
    ensures
        file_attr(size).size == size,
        file_attr(size) == (FileAttr { size, ..file_attr(other) }),
        file_attr(size).ino == 1,
        file_attr(size).kind == FileKind::RegularFile,
        file_attr(size).perm == 0o644,
        file_attr(size).nlink == 1,
        file_attr(size).uid == 0,
        file_attr(size).gid == 0,
        file_attr(size).rdev == 0,
        file_attr(size).blocks == 1,
        file_attr(size).blksize == 512,
        file_attr(size).flags == 0,
{
}

/// A handle is seen with its direction, its copy and whether that has to be
/// stored; an optional copy is there if and only if its bytes are.
pub proof fn law_handles_are_seen_as_they_are(handle: HandleState, bytes: Vec<u8>)
    ensures
        handle@.access == handle.access,
        handle@.buf == handle.buf@,
        handle@.dirty == handle.dirty,
        opt_bytes(Some(bytes)) == Some(bytes@),
        opt_bytes(None) is None,
        content_of(Some(bytes@)) == bytes@,
        content_of(None).len() == 0,
{
}

/// Closing a handle takes that one away and no other; one that has nothing to
/// store leaves the file as it is.
pub proof fn law_closing_takes_one_handle_away(g: Guarded, fh: u64, other: u64)
    ensures
        release_file(g, fh).fs.handles.contains_key(other) == (other != fh
            && g.fs.handles.contains_key(other)),
        other != fh && g.fs.handles.contains_key(other) ==> release_file(g, fh).fs.handles[other]
            == g.fs.handles[other],
        release_file(g, fh).fs.next_fh == g.fs.next_fh,
        pending(g.fs, fh) is None ==> release_file(g, fh).store == g.store && release_file(
            g,
            fh,
        ).fs.size == g.fs.size && flush_file(g, fh) == g,
        closed_handle(g.fs, fh) == (FsView { handles: g.fs.handles.remove(fh), ..g.fs }),
{
}

/// While the stored contents are still to be resized the file is reported with its
/// old size.
pub proof fn law_the_size_waits_for_the_store(fs: FsView, len: u64)
    ensures
        all_resized(fs, len).size == fs.size,
        all_resized(fs, len).next_fh == fs.next_fh,
        all_resized(fs, len).handles.dom() == fs.handles.dom(),
{
    assert(all_resized(fs, len).handles.dom() =~= fs.handles.dom());
}

} // verus!
