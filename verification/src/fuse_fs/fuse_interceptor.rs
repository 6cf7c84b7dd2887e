//! Mounting the guarded files: finding leftover mounts, moving a credential
//! into the backing store, and starting and stopping all mounts together.
use crate::fuse_fs::credential_fs::opt_bytes;
use crate::path::{from_utf8_lossy, path_list, same_bytes, text_of_bytes, FilePath};
use crate::text::{
    chars_of, has_prefix, is_text, law_texts_are_split_at_separators, lemma_first_piece,
    lemma_split_first, lines, split_chars, split_lines, split_on, starts_with, strings, text_of,
    texts,
};
use vstd::prelude::*;
use vstd::string::*;
use vstd::utf8::*;

verus! {

// ---------------------------------------------------------------------------
// Leftover mounts
// ---------------------------------------------------------------------------

/// The byte `\`, which starts an escape in a field of `/proc/mounts`.
pub const BACKSLASH: u8 = 0x5c;

pub open spec fn is_octal(b: u8) -> bool {
    0x30 <= b <= 0x37
}

/// Whether `field` begins with an escape: a backslash and three octal digits.
pub open spec fn begins_escape(field: Seq<u8>) -> bool {
    &&& field.len() > 3
    &&& field[0] == BACKSLASH
    &&& is_octal(field[1])
    &&& is_octal(field[2])
    &&& is_octal(field[3])
}

/// The byte that the escape at the beginning of `field` stands for.
pub open spec fn escaped_byte(field: Seq<u8>) -> u8 {
    (((field[1] - 0x30) * 64 + (field[2] - 0x30) * 8 + (field[3] - 0x30)) % 256) as u8
}

/// `field` with its escapes decoded.
pub open spec fn unescaped(field: Seq<u8>) -> Seq<u8>
    decreases field.len(),
{
    if field.len() == 0 {
        field
    } else if begins_escape(field) {
        seq![escaped_byte(field)] + unescaped(field.skip(4))
    } else {
        seq![field[0]] + unescaped(field.skip(1))
    }
}

/// Decode the octal escapes (`\040` space, `\011` tab, `\012` newline, `\134`
/// backslash) the kernel writes for whitespace in `/proc/mounts` fields.
pub fn unescape_mount_field(field: &str) -> (s: String)
    ensures
        s@ == text_of_bytes(unescaped(encode_utf8(field@))),
{
    let b = field.as_bytes_vec();
    let mut out: Vec<u8> = Vec::new();
    let mut i: usize = 0;
    assert(b@.skip(0) =~= b@);
    assert(unescaped(b@) =~= out@ + unescaped(b@.skip(0)));
    while i < b.len()
        invariant
            i <= b@.len(),
            unescaped(b@) == out@ + unescaped(b@.skip(i as int)),
        decreases b@.len() - i,
    {
        let ghost rest = b@.skip(i as int);
        let ghost before = out@;
        if b[i] == BACKSLASH && b.len() - i > 3 && (0x30 <= b[i + 1] && b[i + 1] <= 0x37) && (0x30
            <= b[i + 2] && b[i + 2] <= 0x37) && (0x30 <= b[i + 3] && b[i + 3] <= 0x37) {
            let value: u32 = (b[i + 1] - 0x30) as u32 * 64 + (b[i + 2] - 0x30) as u32 * 8 + (b[i
                + 3] - 0x30) as u32;
            let byte: u8 = (value % 256) as u8;
            out.push(byte);
            proof {
                assert(begins_escape(rest));
                assert(byte == escaped_byte(rest));
                assert(rest.skip(4) =~= b@.skip(i + 4));
                let tail = unescaped(b@.skip(i + 4));
                assert(before + (seq![byte] + tail) =~= out@ + tail);
            }
            i = i + 4;
        } else {
            out.push(b[i]);
            proof {
                assert(!begins_escape(rest));
                assert(rest.skip(1) =~= b@.skip(i + 1));
                let tail = unescaped(b@.skip(i + 1));
                assert(before + (seq![rest[0]] + tail) =~= out@ + tail);
            }
            i = i + 1;
        }
    }
    assert(b@.skip(i as int) =~= Seq::<u8>::empty());
    assert(out@ + Seq::<u8>::empty() =~= out@);
    from_utf8_lossy(out.as_slice())
}

/// The source that a guarded file is mounted from.
pub fn mount_source() -> (r: &'static str)
    ensures
        r@ == "file-guard"@,
{
    "file-guard"
}

/// The mountpoint in a line of `/proc/mounts`, if the line is a file-guard FUSE
/// mount (`<source> <target> <fstype> ...`).
pub open spec fn mount_target(line: Seq<char>) -> Option<Seq<char>> {
    let fields = split_on(line, ' ');
    if fields.len() > 2 && fields[0] == "file-guard"@ && starts_with(fields[2], "fuse"@) {
        Some(text_of_bytes(unescaped(encode_utf8(fields[1]))))
    } else {
        None
    }
}

/// The mountpoints of file-guard FUSE mounts in a list of lines, in order.
pub open spec fn mount_targets(list: Seq<Seq<char>>) -> Seq<Seq<char>>
    decreases list.len(),
{
    if list.len() == 0 {
        Seq::empty()
    } else {
        match mount_target(list[0]) {
            Some(target) => seq![target] + mount_targets(list.skip(1)),
            None => mount_targets(list.skip(1)),
        }
    }
}

/// The mountpoint in one line.
fn line_target(line: &[char]) -> (r: Option<String>)
    ensures
        match r {
            Some(target) => mount_target(line@) == Some(target@),
            None => mount_target(line@) is None,
        },
{
    let fields = split_chars(line, ' ');
    if fields.len() <= 2 {
        assert(texts(fields@).len() <= 2);
        return None;
    }
    assert(texts(fields@)[0] == fields@[0]@);
    assert(texts(fields@)[1] == fields@[1]@);
    assert(texts(fields@)[2] == fields@[2]@);
    if is_text(&fields[0], mount_source()) && has_prefix(&fields[2], "fuse") {
        Some(unescape_mount_field(text_of(&fields[1]).as_str()))
    } else {
        None
    }
}

/// The mountpoints in `/proc/mounts`-formatted `contents` that are file-guard
/// FUSE mounts.
pub fn file_guard_mountpoints(contents: &str) -> (r: Vec<String>)
    ensures
        strings(r@) == mount_targets(lines(contents@)),
{
    let chars = chars_of(contents);
    let all = split_lines(&chars);
    let mut r: Vec<String> = Vec::new();
    let mut i: usize = 0;
    let ghost list = texts(all@);
    assert(list.skip(0) =~= list);
    assert(strings(r@) =~= Seq::<Seq<char>>::empty());
    assert(mount_targets(list) =~= strings(r@) + mount_targets(list.skip(0)));
    while i < all.len()
        invariant
            i <= all@.len(),
            list == texts(all@),
            mount_targets(list) == strings(r@) + mount_targets(list.skip(i as int)),
        decreases all@.len() - i,
    {
        let ghost before = r@;
        let ghost rest = list.skip(i as int);
        assert(rest[0] == all@[i as int]@);
        assert(rest.skip(1) =~= list.skip(i + 1));
        if let Some(target) = line_target(&all[i]) {
            let ghost t = target@;
            r.push(target);
            proof {
                assert(strings(r@) =~= strings(before).push(t));
                let tail = mount_targets(list.skip(i + 1));
                assert(strings(before) + (seq![t] + tail) =~= strings(r@) + tail);
            }
        }
        i = i + 1;
    }
    assert(list.skip(i as int) =~= Seq::<Seq<char>>::empty());
    assert(strings(r@) + Seq::<Seq<char>>::empty() =~= strings(r@));
    r
}

/// Whether `/proc/mounts` shows a leftover file-guard mount at `watched_path`. A
/// daemon that died without running its unmount path (SIGKILL, crash, hard
/// restart) leaves the mountpoint as a wedged FUSE endpoint, so the next start
/// has to detach it first. A single instance runs, so any file-guard mount still
/// present at start is by definition orphaned and safe to detach.
pub fn has_stale_mount(proc_mounts: &str, watched_path: &FilePath) -> (r: bool)
    ensures
        r == mount_targets(lines(proc_mounts@)).contains(text_of_bytes(watched_path@)),
{
    let mounts = file_guard_mountpoints(proc_mounts);
    let target = watched_path.to_text();
    let ghost list = strings(mounts@);
    let mut i: usize = 0;
    while i < mounts.len()
        invariant
            i <= mounts@.len(),
            list == strings(mounts@),
            list == mount_targets(lines(proc_mounts@)),
            target@ == text_of_bytes(watched_path@),
            forall|j: int| 0 <= j < i ==> list[j] != target@,
        decreases mounts@.len() - i,
    {
        assert(list[i as int] == mounts@[i as int]@);
        if mounts[i] == target {
            assert(list.contains(target@));
            return true;
        }
        i = i + 1;
    }
    false
}

/// Whether a mount has to be reachable by other users: when the daemon runs as
/// root, the guarded user's own processes have to reach it.
pub fn allow_other(euid: u32) -> (r: bool)
    ensures
        r == (euid == 0),
{
    euid == 0
}

/// A path as the kernel writes it into `/proc/mounts`: space, tab, newline and
/// backslash as octal escapes.
pub open spec fn escaped(path: Seq<u8>) -> Seq<u8>
    decreases path.len(),
{
    if path.len() == 0 {
        path
    } else {
        escape_of(path[0]) + escaped(path.skip(1))
    }
}

/// How one byte of a path is written.
pub open spec fn escape_of(b: u8) -> Seq<u8> {
    if b == 0x20 {
        seq![BACKSLASH, 0x30u8, 0x34u8, 0x30u8]
    } else if b == 0x09 {
        seq![BACKSLASH, 0x30u8, 0x31u8, 0x31u8]
    } else if b == 0x0a {
        seq![BACKSLASH, 0x30u8, 0x31u8, 0x32u8]
    } else if b == BACKSLASH {
        seq![BACKSLASH, 0x31u8, 0x33u8, 0x34u8]
    } else {
        seq![b]
    }
}

/// Decoding a field gives back the path that the kernel wrote, whatever bytes
/// the path consists of.
pub proof fn law_mount_fields_decode_to_the_path(path: Seq<u8>)
    ensures
        unescaped(escaped(path)) == path,
    decreases path.len(),
{
    if path.len() > 0 {
        let code = escape_of(path[0]);
        let rest = escaped(path.skip(1));
        let field = escaped(path);
        law_mount_fields_decode_to_the_path(path.skip(1));
        assert(field == code + rest);
        if code.len() == 4 {
            assert(begins_escape(field));
            assert(escaped_byte(field) == path[0]);
            assert(field.skip(4) =~= rest);
        } else {
            assert(field[0] == path[0]);
            assert(field.skip(1) =~= rest);
        }
        assert(seq![path[0]] + path.skip(1) =~= path);
    }
}

/// The line of `/proc/mounts` for a mount of a guarded file, its path written
/// as `field`.
pub open spec fn own_mount_line(field: Seq<char>, rest: Seq<char>) -> Seq<char> {
    "file-guard"@ + seq![' '] + (field + seq![' '] + ("fuse"@ + rest))
}

/// A leftover mount of a guarded file is found wherever it stands among the
/// mounts, whatever its path.
pub proof fn law_own_mounts_are_found(
    list: Seq<Seq<char>>,
    i: int,
    path: Seq<u8>,
    field: Seq<char>,
    rest: Seq<char>,
)
    requires
        0 <= i < list.len(),
        encode_utf8(field) == escaped(path),
        !field.contains(' '),
        list[i] == own_mount_line(field, rest),
    ensures
        mount_targets(list).contains(text_of_bytes(path)),
{
    let line = list[i];
    reveal_strlit("file-guard");
    reveal_strlit("fuse");
    lemma_split_first("file-guard"@, ' ', field + seq![' '] + ("fuse"@ + rest));
    lemma_split_first(field, ' ', "fuse"@ + rest);
    lemma_first_piece("fuse"@, rest, ' ');
    assert(split_on(line, ' ')[2] == split_on("fuse"@ + rest, ' ')[0]);
    law_mount_fields_decode_to_the_path(path);
    assert(mount_target(line) == Some(text_of_bytes(path)));
    lemma_target_listed(list, i);
}

proof fn lemma_target_listed(list: Seq<Seq<char>>, i: int)
    requires
        0 <= i < list.len(),
        mount_target(list[i]) is Some,
    ensures
        mount_targets(list).contains(mount_target(list[i])->0),
    decreases list.len(),
{
    let target = mount_target(list[i])->0;
    let tail = mount_targets(list.skip(1));
    if i == 0 {
        assert(mount_targets(list)[0] == target);
    } else {
        assert(list.skip(1)[i - 1] == list[i]);
        lemma_target_listed(list.skip(1), i - 1);
        let k = choose|k: int| 0 <= k < tail.len() && tail[k] == target;
        match mount_target(list[0]) {
            Some(first) => {
                assert(mount_targets(list)[k + 1] == target);
            },
            None => {},
        }
    }
}

// ---------------------------------------------------------------------------
// One mountpoint
// ---------------------------------------------------------------------------

/// The watched path is a symlink. Following it could expose or clobber an
/// unintended target, so the operator has to point the watch at the real file.
#[derive(Debug, Clone, Copy, PartialEq, Eq, Structural)]
pub struct IsSymlink;

/// What to do to a watched path before it is mounted over.
#[derive(Debug)]
pub enum PrepareAction {
    /// Store these contents.
    Capture(Vec<u8>),
    /// Remove the file.
    Remove,
    /// Make sure the directory that the file belongs in exists.
    CreateParent,
    /// Create an empty file.
    CreateEmpty,
}

/// The contents of a [`PrepareAction`].
pub ghost enum PrepareView {
    Capture(Seq<u8>),
    Remove,
    CreateParent,
    CreateEmpty,
}

impl View for PrepareAction {
    type V = PrepareView;

    open spec fn view(&self) -> PrepareView {
        match *self {
            PrepareAction::Capture(c) => PrepareView::Capture(c@),
            PrepareAction::Remove => PrepareView::Remove,
            PrepareAction::CreateParent => PrepareView::CreateParent,
            PrepareAction::CreateEmpty => PrepareView::CreateEmpty,
        }
    }
}

/// The contents of a list of actions.
pub open spec fn prepare_views(actions: Seq<PrepareAction>) -> Seq<PrepareView> {
    actions.map_values(|a: PrepareAction| a@)
}

/// Whether the file on disk has to be captured: it has contents that the store
/// does not already hold. An empty file is a leftover mountpoint from a previous
/// run and must not overwrite stored content.
pub open spec fn must_capture(on_disk: Option<Seq<u8>>, in_store: Option<Seq<u8>>) -> bool {
    on_disk is Some && on_disk->0.len() > 0 && in_store != on_disk
}

/// What to do to a watched path, in order, given what is on disk and in the
/// store.
pub open spec fn preparation(on_disk: Option<Seq<u8>>, in_store: Option<Seq<u8>>) -> Seq<
    PrepareView,
> {
    let capture = if must_capture(on_disk, in_store) {
        seq![PrepareView::Capture(on_disk->0)]
    } else {
        Seq::empty()
    };
    let clear = if on_disk is Some {
        PrepareView::Remove
    } else {
        PrepareView::CreateParent
    };
    capture + seq![clear, PrepareView::CreateEmpty]
}

/// Move the real credential into the backing store (if needed) and leave an
/// empty file to mount over: the actions to perform in order, stopping at the
/// first that fails ([`PrepareAction::CreateParent`] aside). On-disk content
/// that the store doesn't already hold (a brand-new file, or one the user edited
/// while the daemon was stopped) is authoritative, and captured before it is
/// replaced.
pub fn prepare_mountpoint(
    is_symlink: bool,
    on_disk: Option<Vec<u8>>,
    in_store: Option<Vec<u8>>,
) -> (r: Result<Vec<PrepareAction>, IsSymlink>)
    ensures
        is_symlink ==> r is Err,
        !is_symlink ==> (r matches Ok(actions) && prepare_views(actions@) == preparation(
            opt_bytes(on_disk),
            opt_bytes(in_store),
        )),
{
    if is_symlink {
        return Err(IsSymlink);
    }
    let mut actions: Vec<PrepareAction> = Vec::new();
    let ghost disk = opt_bytes(on_disk);
    let ghost store = opt_bytes(in_store);
    match on_disk {
        Some(content) => {
            let known = match &in_store {
                Some(stored) => same_bytes(stored.as_slice(), content.as_slice()),
                None => false,
            };
            if content.len() > 0 && !known {
                actions.push(PrepareAction::Capture(content));
            }
            actions.push(PrepareAction::Remove);
        },
        None => {
            actions.push(PrepareAction::CreateParent);
        },
    }
    actions.push(PrepareAction::CreateEmpty);
    assert(prepare_views(actions@) =~= preparation(disk, store));
    Ok(actions)
}

/// What to do to a prepared path when the start is undone.
#[derive(Debug)]
pub enum RollbackAction {
    /// Write these contents back and delete them from the store.
    PutBack(Vec<u8>),
    /// Nothing was captured: remove the empty mountpoint.
    RemoveMountpoint,
}

/// Whether the file is among what the first `done` actions took away.
pub open spec fn was_removed(actions: Seq<PrepareView>, done: int) -> bool {
    actions.take(done).contains(PrepareView::Remove)
}

/// Whether the first `done` actions of a preparation removed the file, so that
/// it has to be put back if the preparation goes no further.
pub fn removed_file(actions: &Vec<PrepareAction>, done: usize) -> (r: bool)
    requires
        done <= actions@.len(),
    ensures
        r == was_removed(prepare_views(actions@), done as int),
{
    let ghost views = prepare_views(actions@);
    let mut i: usize = 0;
    while i < done
        invariant
            i <= done <= actions@.len(),
            views == prepare_views(actions@),
            forall|j: int| 0 <= j < i ==> views[j] != PrepareView::Remove,
        decreases done - i,
    {
        assert(views[i as int] == actions@[i as int]@);
        if let PrepareAction::Remove = &actions[i] {
            assert(views.take(done as int)[i as int] == PrepareView::Remove);
            return true;
        }
        i = i + 1;
    }
    false
}

/// The effect of undoing a preparation by this action.
pub open spec fn undo(p: Place, action: RollbackAction) -> Place {
    match action {
        RollbackAction::PutBack(content) => Place { disk: Some(content@), store: None },
        RollbackAction::RemoveMountpoint => Place { disk: None, ..p },
    }
}

/// Undo the preparation of one path, given what the store holds for it: the
/// action whose effect is to leave that on disk and nothing in the store.
pub fn rollback_path(in_store: Option<Vec<u8>>) -> (r: RollbackAction)
    ensures
        match in_store {
            Some(content) => r == RollbackAction::PutBack(content),
            None => r == RollbackAction::RemoveMountpoint,
        },
        forall|p: Place|
            p.store == opt_bytes(in_store) ==> #[trigger] undo(p, r) == roll_back(p),
{
    match in_store {
        Some(content) => RollbackAction::PutBack(content),
        None => RollbackAction::RemoveMountpoint,
    }
}

/// Where a credential is: the file on disk and the store's entry for it.
pub ghost struct Place {
    pub disk: Option<Seq<u8>>,
    pub store: Option<Seq<u8>>,
}

/// The credential itself: what is on disk, unless that is missing or an empty
/// leftover, in which case what is in the store.
pub open spec fn credential(p: Place) -> Option<Seq<u8>> {
    if p.disk is Some && p.disk->0.len() > 0 {
        p.disk
    } else {
        p.store
    }
}

/// The effect of one action.
pub open spec fn perform(p: Place, action: PrepareView) -> Place {
    match action {
        PrepareView::Capture(content) => Place { store: Some(content), ..p },
        PrepareView::Remove => Place { disk: None, ..p },
        PrepareView::CreateParent => p,
        PrepareView::CreateEmpty => Place { disk: Some(Seq::empty()), ..p },
    }
}

/// The effect of a list of actions.
pub open spec fn perform_all(p: Place, actions: Seq<PrepareView>) -> Place
    decreases actions.len(),
{
    if actions.len() == 0 {
        p
    } else {
        perform(perform_all(p, actions.drop_last()), actions.last())
    }
}

/// The effect of undoing the preparation of a path.
pub open spec fn roll_back(p: Place) -> Place {
    Place { disk: p.store, store: None }
}

/// The credential is never lost, however far the preparation gets: it is on
/// disk or in the store after each action.
pub proof fn law_credentials_are_never_lost(p: Place, done: int)
    requires
        0 <= done <= preparation(p.disk, p.store).len(),
        credential(p) is Some,
    ensures
        ({
            let now = perform_all(p, preparation(p.disk, p.store).take(done));
            now.disk == credential(p) || now.store == credential(p)
        }),
{
    let all = preparation(p.disk, p.store);
    lemma_prefixes(p, all);
}

proof fn lemma_prefixes(p: Place, all: Seq<PrepareView>)
    requires
        all.len() <= 3,
    ensures
        perform_all(p, all.take(0)) == p,
        all.len() > 0 ==> perform_all(p, all.take(1)) == perform(p, all[0]),
        all.len() > 1 ==> perform_all(p, all.take(2)) == perform(perform(p, all[0]), all[1]),
        all.len() > 2 ==> perform_all(p, all.take(3)) == perform(
            perform(perform(p, all[0]), all[1]),
            all[2],
        ),
{
    assert(all.take(0).len() == 0);
    if all.len() > 0 {
        assert(all.take(1).drop_last() =~= all.take(0));
    }
    if all.len() > 1 {
        assert(all.take(2).drop_last() =~= all.take(1));
    }
    if all.len() > 2 {
        assert(all.take(3).drop_last() =~= all.take(2));
    }
}

/// A prepared path holds an empty file to mount over, and the store holds the
/// credential: newer contents on disk replace stored ones, and an empty leftover
/// does not.
pub proof fn law_preparation_moves_the_credential(p: Place)
    ensures
        perform_all(p, preparation(p.disk, p.store)).disk == Some(Seq::<u8>::empty()),
        perform_all(p, preparation(p.disk, p.store)).store == credential(p),
{
    let all = preparation(p.disk, p.store);
    lemma_prefixes(p, all);
    assert(all.take(all.len() as int) =~= all);
}

/// Undoing a preparation leaves the credential on disk and nothing in the store.
pub proof fn law_rollback_puts_the_credential_back(p: Place)
    ensures
        roll_back(perform_all(p, preparation(p.disk, p.store))) == (Place {
            disk: credential(p),
            store: None,
        }),
{
    law_preparation_moves_the_credential(p);
}

/// What becomes of a place whose preparation stopped after `done` actions: it is
/// rolled back if its file was removed.
pub open spec fn give_up(p: Place, done: int) -> Place {
    let actions = preparation(p.disk, p.store);
    let stopped = perform_all(p, actions.take(done));
    if was_removed(actions, done) {
        roll_back(stopped)
    } else {
        stopped
    }
}

/// A preparation that fails midway does not take the credential off the disk: a
/// file with contents has them again, and any other path is as it was found or
/// holds the credential.
pub proof fn law_failed_preparations_leave_the_file_on_disk(p: Place, done: int)
    requires
        0 <= done < preparation(p.disk, p.store).len(),
    ensures
        p.disk is Some && p.disk->0.len() > 0 ==> give_up(p, done).disk == p.disk,
        give_up(p, done).disk == p.disk || give_up(p, done).disk == credential(p),
{
    let all = preparation(p.disk, p.store);
    lemma_prefixes(p, all);
    let taken = all.take(done);
    if all[0] == PrepareView::Remove && done > 0 {
        assert(taken[0] == PrepareView::Remove);
    }
    if all.len() > 2 && done > 1 {
        assert(taken[1] == PrepareView::Remove);
    }
}

// ---------------------------------------------------------------------------
// All mountpoints
// ---------------------------------------------------------------------------

/// Where the interceptor stands. The paths before the current one are mounted.
#[derive(Debug, Clone, Copy, PartialEq, Eq, Structural)]
pub enum Phase {
    /// It has not been started.
    Idle,
    /// The path at this index is being prepared.
    Preparing(usize),
    /// The path at this index is being mounted.
    Mounting(usize),
    /// All paths are mounted.
    Running,
    /// Nothing is mounted any more, or the start failed.
    Ended,
}

/// What happened to the current path.
#[derive(Debug, Clone, Copy, PartialEq, Eq, Structural)]
pub enum StartEvent {
    /// It was prepared.
    Prepared,
    /// It was mounted.
    Mounted,
    /// It could not be prepared; its file may have been removed by then (see
    /// [`removed_file`]).
    PrepareFailed { removed: bool },
    /// It could not be mounted.
    MountFailed,
}

/// What to do next to start.
#[derive(Debug, Clone, Copy, PartialEq, Eq, Structural)]
pub enum StartAction {
    /// Prepare the path at this index.
    Prepare(usize),
    /// Mount the path at this index.
    Mount(usize),
    /// Undo the start: unmount the first `mounted` paths, then undo the
    /// preparation of the first `prepared` paths, the one that failed among them
    /// if its file was removed, so that a failure midway never leaves credentials
    /// stranded in the store with no live mount.
    RollBack { mounted: usize, prepared: usize },
    /// The start is complete.
    Finished,
    /// Nothing was expected.
    Ignore,
}

/// An interceptor can be started only once.
#[derive(Debug, Clone, Copy, PartialEq, Eq, Structural)]
pub struct AlreadyStarted;

/// What to do to a mounted path when the interceptor is stopped.
#[derive(Debug)]
pub struct StopAction {
    /// The path to unmount.
    pub path: FilePath,
    /// Whether to write the stored contents back afterwards.
    pub restore: bool,
}

/// The contents of a [`StopAction`].
pub ghost struct StopView {
    pub path: Seq<u8>,
    pub restore: bool,
}

impl View for StopAction {
    type V = StopView;

    open spec fn view(&self) -> StopView {
        StopView { path: self.path@, restore: self.restore }
    }
}

/// The contents of a list of stop actions.
pub open spec fn stop_views(actions: Seq<StopAction>) -> Seq<StopView> {
    actions.map_values(|a: StopAction| a@)
}

/// The mounts of all watched files.
#[derive(Debug)]
pub struct FuseInterceptor {
    watched_paths: Vec<FilePath>,
    phase: Phase,
    restore_on_stop: bool,
}

/// The state of a [`FuseInterceptor`].
pub ghost struct InterceptorView {
    pub watched: Seq<Seq<u8>>,
    pub phase: Phase,
    pub restore_on_stop: bool,
}

impl View for FuseInterceptor {
    type V = InterceptorView;

    closed spec fn view(&self) -> InterceptorView {
        InterceptorView {
            watched: path_list(self.watched_paths@),
            phase: self.phase,
            restore_on_stop: self.restore_on_stop,
        }
    }
}

/// The number of paths that are mounted.
pub open spec fn mounted(v: InterceptorView) -> int {
    match v.phase {
        Phase::Idle => 0,
        Phase::Preparing(i) => i as int,
        Phase::Mounting(i) => i as int,
        Phase::Running => v.watched.len() as int,
        Phase::Ended => 0,
    }
}

/// The current path is one of the watched paths.
pub open spec fn in_range(v: InterceptorView) -> bool {
    match v.phase {
        Phase::Preparing(i) => i < v.watched.len(),
        Phase::Mounting(i) => i < v.watched.len(),
        _ => true,
    }
}

/// The phase and the action after the first `i` paths have been mounted.
pub open spec fn go_on(i: int, count: int) -> (Phase, StartAction) {
    if i < count {
        (Phase::Preparing(i as usize), StartAction::Prepare(i as usize))
    } else {
        (Phase::Running, StartAction::Finished)
    }
}

/// One step of a start of `count` paths.
pub open spec fn start_step(phase: Phase, event: StartEvent, count: int) -> (Phase, StartAction) {
    match (phase, event) {
        (Phase::Preparing(i), StartEvent::Prepared) => (Phase::Mounting(i), StartAction::Mount(i)),
        (Phase::Preparing(i), StartEvent::PrepareFailed { removed }) => (
            Phase::Ended,
            StartAction::RollBack {
                mounted: i,
                prepared: if removed {
                    (i + 1) as usize
                } else {
                    i
                },
            },
        ),
        (Phase::Mounting(i), StartEvent::Mounted) => go_on(i + 1, count),
        (Phase::Mounting(i), StartEvent::MountFailed) => (
            Phase::Ended,
            StartAction::RollBack { mounted: i, prepared: (i + 1) as usize },
        ),
        (_, _) => (phase, StartAction::Ignore),
    }
}

impl FuseInterceptor {
    /// An interceptor for these paths.
    pub fn new(watched_paths: Vec<FilePath>, restore_on_stop: bool) -> (r: FuseInterceptor)
        ensures
            r@ == (InterceptorView {
                watched: path_list(watched_paths@),
                phase: Phase::Idle,
                restore_on_stop,
            }),
            in_range(r@),
    {
        FuseInterceptor { watched_paths, phase: Phase::Idle, restore_on_stop }
    }

    /// The path at `index`.
    pub fn path(&self, index: usize) -> (r: &FilePath)
        requires
            index < self@.watched.len(),
        ensures
            r@ == self@.watched[index as int],
    {
        &self.watched_paths[index]
    }

    /// The number of watched paths.
    pub fn path_count(&self) -> (r: usize)
        ensures
            r == self@.watched.len(),
    {
        self.watched_paths.len()
    }

    /// Begins to start: the paths are prepared and mounted one by one, and after
    /// each action [`Self::start_next`] is told how it went.
    pub fn start(&mut self) -> (r: Result<StartAction, AlreadyStarted>)
        ensures
            old(self)@.phase == Phase::Idle ==> (r matches Ok(action) && (final(self)@.phase, action)
                == go_on(0, old(self)@.watched.len() as int)),
            old(self)@.phase != Phase::Idle ==> r is Err && final(self)@.phase == old(self)@.phase,
            final(self)@.watched == old(self)@.watched,
            final(self)@.restore_on_stop == old(self)@.restore_on_stop,
            in_range(old(self)@) ==> in_range(final(self)@),
    {
        match self.phase {
            Phase::Idle => {
                if self.watched_paths.len() > 0 {
                    self.phase = Phase::Preparing(0);
                    Ok(StartAction::Prepare(0))
                } else {
                    self.phase = Phase::Running;
                    Ok(StartAction::Finished)
                }
            },
            _ => Err(AlreadyStarted),
        }
    }

    /// Goes on with the start after `event`.
    pub fn start_next(&mut self, event: StartEvent) -> (r: StartAction)
        requires
            in_range(old(self)@),
        ensures
            (final(self)@.phase, r) == start_step(
                old(self)@.phase,
                event,
                old(self)@.watched.len() as int,
            ),
            final(self)@.watched == old(self)@.watched,
            final(self)@.restore_on_stop == old(self)@.restore_on_stop,
            in_range(final(self)@),
    {
        let count: usize = self.watched_paths.len();
        match self.phase {
            Phase::Preparing(i) => match event {
                StartEvent::Prepared => {
                    self.phase = Phase::Mounting(i);
                    StartAction::Mount(i)
                },
                StartEvent::PrepareFailed { removed } => {
                    self.phase = Phase::Ended;
                    let prepared: usize = if removed {
                        i + 1
                    } else {
                        i
                    };
                    StartAction::RollBack { mounted: i, prepared }
                },
                StartEvent::Mounted | StartEvent::MountFailed => StartAction::Ignore,
            },
            Phase::Mounting(i) => match event {
                StartEvent::Mounted => {
                    if i + 1 < count {
                        self.phase = Phase::Preparing(i + 1);
                        StartAction::Prepare(i + 1)
                    } else {
                        self.phase = Phase::Running;
                        StartAction::Finished
                    }
                },
                StartEvent::MountFailed => {
                    self.phase = Phase::Ended;
                    StartAction::RollBack { mounted: i, prepared: i + 1 }
                },
                StartEvent::Prepared | StartEvent::PrepareFailed { .. } => StartAction::Ignore,
            },
            _ => StartAction::Ignore,
        }
    }

    /// Stops: every mounted path is unmounted, in order, and its contents written
    /// back if the configuration says so.
    pub fn stop(&mut self) -> (r: Vec<StopAction>)
        requires
            in_range(old(self)@),
        ensures
            stop_views(r@) == old(self)@.watched.take(mounted(old(self)@)).map_values(
                |path: Seq<u8>| StopView { path, restore: old(self)@.restore_on_stop },
            ),
            final(self)@.phase == (if old(self)@.phase == Phase::Idle {
                Phase::Idle
            } else {
                Phase::Ended
            }),
            final(self)@.watched == old(self)@.watched,
            final(self)@.restore_on_stop == old(self)@.restore_on_stop,
            in_range(final(self)@),
    {
        let ghost before = self@;
        let ghost all = before.watched.take(mounted(before)).map_values(
            |path: Seq<u8>| StopView { path, restore: before.restore_on_stop },
        );
        let count: usize = match self.phase {
            Phase::Idle => 0,
            Phase::Preparing(i) => i,
            Phase::Mounting(i) => i,
            Phase::Running => self.watched_paths.len(),
            Phase::Ended => 0,
        };
        let mut r: Vec<StopAction> = Vec::new();
        let mut i: usize = 0;
        while i < count
            invariant
                i <= count <= self.watched_paths@.len(),
                self@ == before,
                before.watched == path_list(self.watched_paths@),
                before.restore_on_stop == self.restore_on_stop,
                count == mounted(before),
                all == before.watched.take(mounted(before)).map_values(
                    |path: Seq<u8>| StopView { path, restore: before.restore_on_stop },
                ),
                stop_views(r@) == all.take(i as int),
            decreases count - i,
        {
            let action = StopAction {
                path: self.watched_paths[i].clone(),
                restore: self.restore_on_stop,
            };
            let ghost done = r@;
            r.push(action);
            assert(stop_views(r@) =~= stop_views(done).push(action@));
            i = i + 1;
            assert(stop_views(r@) =~= all.take(i as int));
        }
        assert(all.take(count as int) =~= all);
        match self.phase {
            Phase::Idle => {},
            _ => {
                self.phase = Phase::Ended;
            },
        }
        r
    }
}

/// The phase and the last action of a start of `count` paths, after a series of
/// events.
pub open spec fn start_run(events: Seq<StartEvent>, count: int) -> (Phase, StartAction)
    decreases events.len(),
{
    if events.len() == 0 {
        go_on(0, count)
    } else {
        start_step(start_run(events.drop_last(), count).0, events.last(), count)
    }
}

/// Whether each event reports on the action before it.
pub open spec fn in_order(events: Seq<StartEvent>, count: int) -> bool
    decreases events.len(),
{
    events.len() == 0 || (in_order(events.drop_last(), count) && start_run(events, count).1
        != StartAction::Ignore)
}

/// How often `event` occurs in `events`.
pub open spec fn tally(events: Seq<StartEvent>, event: StartEvent) -> int
    decreases events.len(),
{
    if events.len() == 0 {
        0
    } else {
        tally(events.drop_last(), event) + (if events.last() == event {
            1int
        } else {
            0
        })
    }
}

/// How many failures occur in `events`.
pub open spec fn failures(events: Seq<StartEvent>) -> int {
    tally(events, StartEvent::MountFailed) + tally(
        events,
        StartEvent::PrepareFailed { removed: false },
    ) + tally(events, StartEvent::PrepareFailed { removed: true })
}

/// How many preparations there are to undo: those that were completed, and one
/// that failed after it had removed the file.
pub open spec fn to_undo(events: Seq<StartEvent>) -> int {
    tally(events, StartEvent::Prepared) + tally(events, StartEvent::PrepareFailed { removed: true })
}

/// A start ends with every path mounted, or it is undone as a whole: exactly the
/// paths that were mounted are unmounted again, and every preparation is undone
/// that was completed or that got as far as removing the file.
pub proof fn law_starts_are_all_or_nothing(events: Seq<StartEvent>, count: int)
    requires
        0 <= count <= usize::MAX,
        in_order(events, count),
    ensures
        match start_run(events, count).1 {
            StartAction::Finished => tally(events, StartEvent::Mounted) == count && to_undo(events)
                == count && failures(events) == 0,
            StartAction::RollBack { mounted, prepared } => mounted == tally(
                events,
                StartEvent::Mounted,
            ) && prepared == to_undo(events) && failures(events) == 1,
            StartAction::Prepare(i) => i < count && i == tally(events, StartEvent::Mounted) && i
                == to_undo(events) && failures(events) == 0,
            StartAction::Mount(i) => i < count && i == tally(events, StartEvent::Mounted) && i + 1
                == to_undo(events) && failures(events) == 0,
            StartAction::Ignore => false,
        },
{
    lemma_start_run(events, count);
}

proof fn lemma_start_run(events: Seq<StartEvent>, count: int)
    requires
        0 <= count <= usize::MAX,
        in_order(events, count),
    ensures
        ({
            let (phase, action) = start_run(events, count);
            let p = tally(events, StartEvent::Prepared);
            let r = tally(events, StartEvent::PrepareFailed { removed: true });
            let m = tally(events, StartEvent::Mounted);
            let f = failures(events);
            match action {
                StartAction::Finished => phase == Phase::Running && p == count && m == count && f
                    == 0 && r == 0,
                StartAction::RollBack { mounted, prepared } => phase == Phase::Ended && mounted == m
                    && prepared == p + r && f == 1,
                StartAction::Prepare(i) => phase == Phase::Preparing(i) && i < count && i == m && i
                    == p && f == 0 && r == 0,
                StartAction::Mount(i) => phase == Phase::Mounting(i) && i < count && i == m && i + 1
                    == p && f == 0 && r == 0,
                StartAction::Ignore => false,
            }
        }),
    decreases events.len(),
{
    if events.len() > 0 {
        lemma_start_run(events.drop_last(), count);
    }
}

/// What becomes of the watched places when the start fails at the path `k`: the
/// paths before it have been prepared, and the preparation of `k` performed
/// `done` actions; then the first `prepared` paths are rolled back.
pub open spec fn after_failed_start(
    places: Seq<Place>,
    k: int,
    done: int,
    prepared: int,
) -> Seq<Place> {
    Seq::new(
        places.len(),
        |i: int|
            {
                let p = places[i];
                let actions = preparation(p.disk, p.store);
                let reached = if i < k {
                    perform_all(p, actions)
                } else if i == k {
                    perform_all(p, actions.take(done))
                } else {
                    p
                };
                if i < prepared {
                    roll_back(reached)
                } else {
                    reached
                }
            },
    )
}

/// The event that reports a failure at the path in place `p`, whose preparation
/// performed `done` actions: the failure of the mount if that was all of them.
pub open spec fn failure_after(p: Place, done: int) -> StartEvent {
    let actions = preparation(p.disk, p.store);
    if done == actions.len() {
        StartEvent::MountFailed
    } else {
        StartEvent::PrepareFailed { removed: was_removed(actions, done) }
    }
}

/// Whether every file that had contents on disk before has them there after.
pub open spec fn files_are_kept(before: Seq<Place>, after: Seq<Place>) -> bool {
    &&& after.len() == before.len()
    &&& forall|i: int|
        0 <= i < before.len() && before[i].disk is Some && before[i].disk->0.len() > 0 ==> (
        #[trigger] after[i]).disk == before[i].disk
}

/// Where a start stands when it fails at the path `k`, whose preparation
/// performed `done` actions.
pub open spec fn failing_phase(p: Place, k: int, done: int) -> Phase {
    if failure_after(p, done) == StartEvent::MountFailed {
        Phase::Mounting(k as usize)
    } else {
        Phase::Preparing(k as usize)
    }
}

/// After a failed start every watched file that had contents has them on disk
/// again, the one at which the start failed included, and nothing stays mounted:
/// no credential is left in the store alone. (Nothing being written through the
/// mounts in the meantime.)
pub proof fn law_failed_starts_leave_every_file_on_disk(
    places: Seq<Place>,
    k: int,
    done: int,
    mounted: usize,
    prepared: usize,
)
    requires
        0 <= k < places.len() <= usize::MAX,
        0 <= done <= preparation(places[k].disk, places[k].store).len(),
        start_step(
            failing_phase(places[k], k, done),
            failure_after(places[k], done),
            places.len() as int,
        ).1 == (StartAction::RollBack { mounted, prepared }),
    ensures
        mounted == k,
        files_are_kept(places, after_failed_start(places, k, done, prepared as int)),
{
    let p = places[k];
    let all = preparation(p.disk, p.store);
    if done == all.len() {
        assert(all.take(done) =~= all);
    } else {
        law_failed_preparations_leave_the_file_on_disk(p, done);
    }
    let after = after_failed_start(places, k, done, prepared as int);
    assert forall|i: int|
        0 <= i < places.len() && places[i].disk is Some && places[i].disk->0.len() > 0 implies (
    #[trigger] after[i]).disk == places[i].disk by {
        law_rollback_puts_the_credential_back(places[i]);
    }
}

/// A failure at any path, however far its preparation got, is answered by a
/// roll-back: [`law_failed_starts_leave_every_file_on_disk`] speaks of every
/// failed start.
pub proof fn law_failures_are_rolled_back(places: Seq<Place>, k: int, done: int)
    requires
        0 <= k < places.len() <= usize::MAX,
        0 <= done <= preparation(places[k].disk, places[k].store).len(),
    ensures
        start_step(
            failing_phase(places[k], k, done),
            failure_after(places[k], done),
            places.len() as int,
        ).1 is RollBack,
{
}

/// A field of `/proc/mounts` is decoded from left to right: a backslash with three
/// octal digits behind it is the byte of that number, and every other byte is
/// itself.
pub proof fn law_octal_escapes_are_decoded(a: u8, b: u8, c: u8, first: u8, rest: Seq<u8>)
    requires
        0x30 <= a <= 0x33,
        0x30 <= b <= 0x37,
        0x30 <= c <= 0x37,
    ensures
        unescaped(Seq::empty()) == Seq::<u8>::empty(),
        unescaped(seq![0x5cu8, a, b, c] + rest) == seq![
            ((a - 0x30) * 64 + (b - 0x30) * 8 + (c - 0x30)) as u8,
        ] + unescaped(rest),
        first != 0x5c ==> unescaped(seq![first] + rest) == seq![first] + unescaped(rest),
        rest.len() < 3 || !(0x30 <= rest[0] <= 0x37) || !(0x30 <= rest[1] <= 0x37) || !(0x30
            <= rest[2] <= 0x37) ==> unescaped(seq![0x5cu8] + rest) == seq![0x5cu8] + unescaped(
            rest,
        ),
{
    let field = seq![0x5cu8, a, b, c] + rest;
    assert(begins_escape(field));
    assert(field.skip(4) =~= rest);
    let plain = seq![first] + rest;
    assert(plain.skip(1) =~= rest);
    let slashed = seq![0x5cu8] + rest;
    assert(slashed.skip(1) =~= rest);
    if rest.len() >= 3 {
        assert(slashed[1] == rest[0] && slashed[2] == rest[1] && slashed[3] == rest[2]);
    }
}

/// An escape beyond a byte counts by what is left of its number.
pub proof fn law_large_escapes_wrap_around(a: u8, b: u8, c: u8, rest: Seq<u8>)
    requires
        0x34 <= a <= 0x37,
        0x30 <= b <= 0x37,
        0x30 <= c <= 0x37,
    ensures
        unescaped(seq![0x5cu8, a, b, c] + rest) == seq![
            ((a - 0x34) * 64 + (b - 0x30) * 8 + (c - 0x30)) as u8,
        ] + unescaped(rest),
{
    let field = seq![0x5cu8, a, b, c] + rest;
    assert(begins_escape(field));
    assert(field.skip(4) =~= rest);
}

/// A line of `/proc/mounts` is a mount of a guarded file if and only if its source
/// is `file-guard` and its type begins with `fuse`; its mount point is then the
/// field between the two.
pub proof fn law_other_mounts_are_left_alone(
    source: Seq<char>,
    target: Seq<char>,
    kind: Seq<char>,
    rest: Seq<char>,
)
    requires
        !source.contains(' '),
        !target.contains(' '),
        !kind.contains(' '),
    ensures
        ({
            let line = source + seq![' '] + (target + seq![' '] + (kind + seq![' '] + rest));
            let own = source == "file-guard"@ && "fuse"@.is_prefix_of(kind);
            let short = source + seq![' '] + (target + seq![' '] + kind);
            &&& own ==> mount_target(line) == Some(text_of_bytes(unescaped(encode_utf8(target))))
            &&& !own ==> mount_target(line) is None
            &&& mount_target(short) == mount_target(line)
        }),
        mount_target(source) is None,
        mount_target(source + seq![' '] + target) is None,
{
    let behind = kind + seq![' '] + rest;
    law_texts_are_split_at_separators(source, ' ', target + seq![' '] + behind);
    law_texts_are_split_at_separators(source, ' ', target);
    law_texts_are_split_at_separators(target, ' ', behind);
    law_texts_are_split_at_separators(kind, ' ', rest);
    let fields = split_on(source + seq![' '] + (target + seq![' '] + behind), ' ');
    assert(fields[0] == source);
    assert(fields[1] == target);
    assert(fields[2] == kind);
    assert(fields.len() >= 3);
    law_texts_are_split_at_separators(source, ' ', target + seq![' '] + kind);
    law_texts_are_split_at_separators(target, ' ', kind);
    let few = split_on(source + seq![' '] + (target + seq![' '] + kind), ' ');
    assert(few[0] == source);
    assert(few[1] == target);
    assert(few[2] == kind);
    assert(few.len() == 3);
}

/// Every mount of a guarded file is listed, in the order of the lines, and no
/// other line is.
pub proof fn law_mounts_are_listed_in_order(line: Seq<char>, rest: Seq<Seq<char>>)
    ensures
        mount_targets(Seq::empty()) == Seq::<Seq<char>>::empty(),
        mount_target(line) matches Some(target) ==> mount_targets(seq![line] + rest) == seq![target]
            + mount_targets(rest),
        mount_target(line) is None ==> mount_targets(seq![line] + rest) == mount_targets(rest),
{
    let list = seq![line] + rest;
    assert(list[0] == line);
    assert(list.skip(1) =~= rest);
}

/// Before a path is mounted over, a file that is there is removed, its contents
/// stored first if they are new and not empty; for one that is not there the
/// directory is made. Either way an empty file is created last.
pub proof fn law_preparations_take_these_steps(content: Seq<u8>, in_store: Option<Seq<u8>>)
    ensures
        preparation(None, in_store) == seq![PrepareView::CreateParent, PrepareView::CreateEmpty],
        content.len() > 0 && in_store != Some(content) ==> preparation(Some(content), in_store)
            == seq![PrepareView::Capture(content), PrepareView::Remove, PrepareView::CreateEmpty],
        content.len() == 0 || in_store == Some(content) ==> preparation(Some(content), in_store)
            == seq![PrepareView::Remove, PrepareView::CreateEmpty],
{
    assert(preparation(None, in_store) =~= seq![
        PrepareView::CreateParent,
        PrepareView::CreateEmpty,
    ]);
    if content.len() > 0 && in_store != Some(content) {
        assert(preparation(Some(content), in_store) =~= seq![
            PrepareView::Capture(content),
            PrepareView::Remove,
            PrepareView::CreateEmpty,
        ]);
    } else {
        assert(preparation(Some(content), in_store) =~= seq![
            PrepareView::Remove,
            PrepareView::CreateEmpty,
        ]);
    }
}

/// A file was removed if and only if its removal is among the actions performed.
pub proof fn law_removals_are_noticed(actions: Seq<PrepareView>, done: int)
    requires
        0 <= done < actions.len(),
    ensures
        !was_removed(actions, 0),
        was_removed(actions, done + 1) == (was_removed(actions, done) || actions[done]
            == PrepareView::Remove),
{
    let before = actions.take(done);
    let after = actions.take(done + 1);
    if before.contains(PrepareView::Remove) {
        let i = choose|i: int| 0 <= i < before.len() && before[i] == PrepareView::Remove;
        assert(after[i] == PrepareView::Remove);
    }
    if after.contains(PrepareView::Remove) {
        let i = choose|i: int| 0 <= i < after.len() && after[i] == PrepareView::Remove;
        if i < done {
            assert(before[i] == PrepareView::Remove);
        }
    }
    assert(after[done] == actions[done]);
}

/// Undoing a preparation puts what is in the store back on disk, and nothing stays
/// in the store.
pub proof fn law_undoing_empties_the_store(p: Place, content: Vec<u8>)
    ensures
        roll_back(p).disk == p.store,
        roll_back(p).store is None,
        undo(p, RollbackAction::PutBack(content)).disk == Some(content@),
        undo(p, RollbackAction::PutBack(content)).store is None,
        undo(p, RollbackAction::RemoveMountpoint).disk is None,
        undo(p, RollbackAction::RemoveMountpoint).store == p.store,
{
}

/// A start prepares a path, mounts it, and goes on with the next until all are
/// mounted. A failure ends it: the paths before this one are unmounted, and their
/// preparations undone, with that of this path if its file was removed. Any other
/// report changes nothing.
pub proof fn law_starts_go_path_by_path(i: usize, count: int, phase: Phase, event: StartEvent)
    requires
        i < count <= usize::MAX,
    ensures
        go_on(0, count) == (Phase::Preparing(0), StartAction::Prepare(0)),
        go_on(0, 0) == (Phase::Running, StartAction::Finished),
        start_step(Phase::Preparing(i), StartEvent::Prepared, count) == (
            Phase::Mounting(i),
            StartAction::Mount(i),
        ),
        i + 1 < count ==> start_step(Phase::Mounting(i), StartEvent::Mounted, count) == (
            Phase::Preparing((i + 1) as usize),
            StartAction::Prepare((i + 1) as usize),
        ),
        i + 1 == count ==> start_step(Phase::Mounting(i), StartEvent::Mounted, count) == (
            Phase::Running,
            StartAction::Finished,
        ),
        start_step(Phase::Preparing(i), StartEvent::PrepareFailed { removed: false }, count) == (
            Phase::Ended,
            StartAction::RollBack { mounted: i, prepared: i },
        ),
        start_step(Phase::Preparing(i), StartEvent::PrepareFailed { removed: true }, count) == (
            Phase::Ended,
            StartAction::RollBack { mounted: i, prepared: (i + 1) as usize },
        ),
        start_step(Phase::Mounting(i), StartEvent::MountFailed, count) == (
            Phase::Ended,
            StartAction::RollBack { mounted: i, prepared: (i + 1) as usize },
        ),
        ({
            ||| phase == Phase::Idle || phase == Phase::Running || phase == Phase::Ended
            ||| phase is Preparing && (event is Mounted || event is MountFailed)
            ||| phase is Mounting && (event is Prepared || event is PrepareFailed)
        }) ==> start_step(phase, event, count) == (phase, StartAction::Ignore),
{
}

/// The mounted paths are all paths of an interceptor that runs, those before the
/// current one during a start, and none before it and after the end.
pub proof fn law_paths_before_the_current_one_are_mounted(v: InterceptorView, i: usize)
    ensures
        v.phase == Phase::Running ==> mounted(v) == v.watched.len(),
        v.phase == Phase::Preparing(i) || v.phase == Phase::Mounting(i) ==> mounted(v) == i,
        v.phase == Phase::Idle || v.phase == Phase::Ended ==> mounted(v) == 0,
        in_range(v) ==> 0 <= mounted(v) <= v.watched.len(),
{
}

/// The actions of a list are those that it holds, each at its place.
pub proof fn law_action_lists_keep_every_action(
    actions: Seq<PrepareAction>,
    stops: Seq<StopAction>,
    i: int,
)
    ensures
        prepare_views(actions).len() == actions.len(),
        0 <= i < actions.len() ==> {
            let v = prepare_views(actions)[i];
            &&& actions[i] matches PrepareAction::Capture(c) ==> v == PrepareView::Capture(c@)
            &&& actions[i] is Remove <==> v == PrepareView::Remove
            &&& actions[i] is CreateParent <==> v == PrepareView::CreateParent
            &&& actions[i] is CreateEmpty <==> v == PrepareView::CreateEmpty
        },
        stop_views(stops).len() == stops.len(),
        0 <= i < stops.len() ==> stop_views(stops)[i].path == stops[i].path@
            && stop_views(stops)[i].restore == stops[i].restore,
{
}

} // verus!
