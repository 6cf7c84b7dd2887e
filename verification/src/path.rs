//! File paths as byte strings, compared component by component.
use crate::text::{
    copy_range, law_texts_are_split_at_separators, lemma_first_index, lemma_split_last, split_on,
};
use vstd::prelude::*;
use vstd::string::*;
use vstd::utf8::*;

verus! {

/// What `String::from_utf8_lossy` makes of bytes that are not valid UTF-8.
pub uninterp spec fn utf8_repaired(bytes: Seq<u8>) -> Seq<char>;

/// `String::from_utf8_lossy` of std. Valid UTF-8 comes back decoded. For other
/// input the text is a function of the bytes; where its replacement characters
/// stand is not stated.
#[verifier::external_body]
pub(crate) fn from_utf8_lossy(bytes: &[u8]) -> (s: String)
    ensures
        valid_utf8(bytes@) ==> s@ == decode_utf8(bytes@),
        !valid_utf8(bytes@) ==> s@ == utf8_repaired(bytes@),
{
    String::from_utf8_lossy(bytes).into_owned()
}

/// The text that a byte string stands for.
pub open spec fn text_of_bytes(bytes: Seq<u8>) -> Seq<char> {
    if valid_utf8(bytes) {
        decode_utf8(bytes)
    } else {
        utf8_repaired(bytes)
    }
}

/// The path separator `/`.
pub const SEPARATOR: u8 = 0x2f;

/// The byte `.`.
pub const DOT: u8 = 0x2e;

/// Contents of a list of byte vectors.
pub open spec fn byte_strings(v: Seq<Vec<u8>>) -> Seq<Seq<u8>> {
    v.map_values(|x: Vec<u8>| x@)
}

/// Whether two byte slices are equal.
pub fn same_bytes(a: &[u8], b: &[u8]) -> (r: bool)
    ensures
        r == (a@ == b@),
{
    if a.len() != b.len() {
        return false;
    }
    let mut i: usize = 0;
    while i < a.len()
        invariant
            i <= a@.len() == b@.len(),
            forall|j: int| 0 <= j < i ==> a@[j] == b@[j],
        decreases a@.len() - i,
    {
        if a[i] != b[i] {
            assert(a@[i as int] != b@[i as int]);
            return false;
        }
        i = i + 1;
    }
    assert(a@ =~= b@);
    true
}

/// Splits `v` at every `sep`.
pub fn split_bytes(v: &[u8], sep: u8) -> (r: Vec<Vec<u8>>)
    ensures
        byte_strings(r@) == split_on(v@, sep),
        r@.len() > 0,
{
    let mut r: Vec<Vec<u8>> = Vec::new();
    let mut start: usize = 0;
    let mut i: usize = 0;
    assert(v@.skip(0) == v@);
    assert(byte_strings(r@) =~= Seq::<Seq<u8>>::empty());
    assert(split_on(v@, sep) =~= byte_strings(r@) + split_on(v@.skip(0), sep));
    while i < v.len()
        invariant
            start <= i <= v@.len(),
            forall|j: int| start <= j < i ==> v@[j] != sep,
            split_on(v@, sep) == byte_strings(r@) + split_on(v@.skip(start as int), sep),
        decreases v@.len() - i,
    {
        if v[i] == sep {
            let piece = copy_range(v, start, i);
            let ghost before = r@;
            let ghost rest = v@.skip(start as int);
            proof {
                lemma_first_index(rest, sep, i - start);
                assert(rest.take(i - start) =~= piece@);
                assert(rest.skip(i - start + 1) =~= v@.skip(i + 1));
            }
            r.push(piece);
            assert(byte_strings(r@) =~= byte_strings(before).push(piece@));
            assert(byte_strings(before) + (seq![piece@] + split_on(v@.skip(i + 1), sep))
                =~= byte_strings(r@) + split_on(v@.skip(i + 1), sep));
            start = i + 1;
        }
        i = i + 1;
    }
    let last = copy_range(v, start, v.len());
    let ghost before = r@;
    proof {
        let rest = v@.skip(start as int);
        lemma_first_index(rest, sep, rest.len() as int);
        assert(rest =~= last@);
    }
    r.push(last);
    assert(byte_strings(r@) =~= byte_strings(before) + seq![last@]);
    r
}

// ---------------------------------------------------------------------------
// Components
// ---------------------------------------------------------------------------

/// Whether a piece between separators names something: empty pieces and `.`
/// do not.
pub open spec fn is_part(piece: Seq<u8>) -> bool {
    piece.len() > 0 && piece != seq![DOT]
}

/// The pieces of a path that name something, `..` among them.
pub open spec fn parts(path: Seq<u8>) -> Seq<Seq<u8>> {
    split_on(path, SEPARATOR).filter(|p: Seq<u8>| is_part(p))
}

/// What a path starts from: `/` for an absolute path, `.` for a path that
/// begins with a `.` component, and nothing otherwise.
pub open spec fn anchor(path: Seq<u8>) -> Seq<Seq<u8>> {
    if path.len() > 0 && path[0] == SEPARATOR {
        seq![seq![SEPARATOR]]
    } else if split_on(path, SEPARATOR)[0] == seq![DOT] {
        seq![seq![DOT]]
    } else {
        Seq::empty()
    }
}

/// The components of a path. Repeated and trailing separators and inner `.`
/// pieces do not show.
pub open spec fn components(path: Seq<u8>) -> Seq<Seq<u8>> {
    anchor(path) + parts(path)
}

/// The last component, if it names a file: not the root, `.` or `..`.
pub open spec fn file_name(path: Seq<u8>) -> Option<Seq<u8>> {
    let c = components(path);
    if c.len() > 0 && c.last() != seq![SEPARATOR] && c.last() != seq![DOT] && c.last() != seq![
        DOT,
        DOT,
    ] {
        Some(c.last())
    } else {
        None
    }
}

/// `base` extended by `rest`: an absolute `rest` replaces `base`, otherwise the
/// two are joined by exactly one added separator where `base` has none at its
/// end.
pub open spec fn joined(base: Seq<u8>, rest: Seq<u8>) -> Seq<u8> {
    if rest.len() > 0 && rest[0] == SEPARATOR {
        rest
    } else if base.len() == 0 || base.last() == SEPARATOR {
        base + rest
    } else {
        base.push(SEPARATOR) + rest
    }
}

/// A file path.
#[derive(Debug)]
pub struct FilePath {
    bytes: Vec<u8>,
}

impl View for FilePath {
    type V = Seq<u8>;

    closed spec fn view(&self) -> Seq<u8> {
        self.bytes@
    }
}

impl Clone for FilePath {
    fn clone(&self) -> (r: FilePath)
        ensures
            r@ == self@,
    {
        FilePath { bytes: copy_range(&self.bytes, 0, self.bytes.len()) }
    }
}

/// Paths are equal when their components are.
impl PartialEq for FilePath {
    fn eq(&self, other: &FilePath) -> (r: bool) {
        self.same_as(other)
    }
}

impl vstd::std_specs::cmp::PartialEqSpecImpl for FilePath {
    open spec fn obeys_eq_spec() -> bool {
        true
    }

    open spec fn eq_spec(&self, other: &FilePath) -> bool {
        components(self@) == components(other@)
    }
}

impl FilePath {
    /// The path that consists of these bytes.
    pub fn from_bytes(bytes: Vec<u8>) -> (r: FilePath)
        ensures
            r@ == bytes@,
    {
        FilePath { bytes }
    }

    /// The path written as `text`.
    pub fn from_text(text: &str) -> (r: FilePath)
        ensures
            r@ == encode_utf8(text@),
    {
        FilePath { bytes: text.as_bytes_vec() }
    }

    /// The bytes of the path.
    pub fn as_bytes(&self) -> (r: &[u8])
        ensures
            r@ == self@,
    {
        self.bytes.as_slice()
    }

    /// The path as text, with invalid UTF-8 replaced.
    pub fn to_text(&self) -> (s: String)
        ensures
            s@ == text_of_bytes(self@),
    {
        from_utf8_lossy(self.bytes.as_slice())
    }

    /// The components of the path.
    pub fn component_list(&self) -> (r: Vec<Vec<u8>>)
        ensures
            byte_strings(r@) == components(self@),
    {
        let pieces = split_bytes(self.bytes.as_slice(), SEPARATOR);
        let mut r: Vec<Vec<u8>> = Vec::new();
        let ghost keep = |p: Seq<u8>| is_part(p);
        if self.bytes.len() > 0 && self.bytes[0] == SEPARATOR {
            let root: Vec<u8> = vec![SEPARATOR];
            assert(root@ =~= seq![SEPARATOR]);
            r.push(root);
        } else if pieces[0].len() == 1 && pieces[0][0] == DOT {
            let here: Vec<u8> = vec![DOT];
            assert(here@ =~= seq![DOT]);
            assert(byte_strings(pieces@)[0] =~= seq![DOT]);
            r.push(here);
        } else {
            assert(byte_strings(pieces@)[0] == pieces@[0]@);
        }
        assert(byte_strings(r@) =~= anchor(self@));
        let mut i: usize = 0;
        proof {
            reveal(Seq::filter);
            assert(byte_strings(pieces@).take(0) =~= Seq::<Seq<u8>>::empty());
            assert(anchor(self@) + Seq::<Seq<u8>>::empty() =~= anchor(self@));
        }
        while i < pieces.len()
            invariant
                i <= pieces@.len(),
                keep == |p: Seq<u8>| is_part(p),
                byte_strings(r@) == anchor(self@) + byte_strings(pieces@).take(i as int).filter(keep),
            decreases pieces@.len() - i,
        {
            let ghost all = byte_strings(pieces@);
            let ghost before = r@;
            proof {
                reveal(Seq::filter);
                assert(all.take(i + 1).drop_last() =~= all.take(i as int));
                assert(all[i as int] == pieces@[i as int]@);
            }
            let part = pieces[i].len() > 0 && !(pieces[i].len() == 1 && pieces[i][0] == DOT);
            proof {
                if pieces@[i as int]@.len() == 1 && pieces@[i as int]@[0] == DOT {
                    assert(pieces@[i as int]@ =~= seq![DOT]);
                }
                assert(part == is_part(all[i as int]));
            }
            if part {
                let piece = copy_range(&pieces[i], 0, pieces[i].len());
                assert(piece@ =~= all[i as int]);
                r.push(piece);
                assert(byte_strings(r@) =~= byte_strings(before).push(piece@));
                assert(byte_strings(r@) =~= anchor(self@) + all.take(i + 1).filter(keep));
            }
            i = i + 1;
        }
        assert(byte_strings(pieces@).take(i as int) =~= byte_strings(pieces@));
        r
    }

    /// Whether two paths have the same components.
    pub fn same_as(&self, other: &FilePath) -> (r: bool)
        ensures
            r == (components(self@) == components(other@)),
    {
        let a = self.component_list();
        let b = other.component_list();
        let ghost ca = components(self@);
        let ghost cb = components(other@);
        if a.len() != b.len() {
            assert(ca.len() != cb.len());
            return false;
        }
        let mut i: usize = 0;
        while i < a.len()
            invariant
                i <= a@.len() == b@.len(),
                ca == components(self@),
                ca == byte_strings(a@),
                cb == components(other@),
                cb == byte_strings(b@),
                forall|j: int| 0 <= j < i ==> ca[j] == cb[j],
            decreases a@.len() - i,
        {
            assert(ca[i as int] == a@[i as int]@ && cb[i as int] == b@[i as int]@);
            if !same_bytes(&a[i], &b[i]) {
                return false;
            }
            i = i + 1;
        }
        assert(ca =~= cb);
        true
    }

    /// The last component, if it names a file.
    pub fn file_name(&self) -> (r: Option<Vec<u8>>)
        ensures
            match r {
                Some(n) => file_name(self@) == Some(n@),
                None => file_name(self@) is None,
            },
    {
        let c = self.component_list();
        if c.len() == 0 {
            return None;
        }
        let last = &c[c.len() - 1];
        assert(components(self@).last() == last@);
        let sep: Vec<u8> = vec![SEPARATOR];
        let dot: Vec<u8> = vec![DOT];
        let up: Vec<u8> = vec![DOT, DOT];
        assert(sep@ =~= seq![SEPARATOR]);
        assert(dot@ =~= seq![DOT]);
        assert(up@ =~= seq![DOT, DOT]);
        if same_bytes(last, &sep) || same_bytes(last, &dot) || same_bytes(last, &up) {
            return None;
        }
        let name = copy_range(last, 0, last.len());
        assert(name@ =~= last@);
        Some(name)
    }

    /// Extends the path by `rest`.
    pub fn join(&self, rest: &FilePath) -> (r: FilePath)
        ensures
            r@ == joined(self@, rest@),
    {
        if rest.bytes.len() > 0 && rest.bytes[0] == SEPARATOR {
            return rest.clone();
        }
        let mut bytes = copy_range(&self.bytes, 0, self.bytes.len());
        if bytes.len() > 0 && bytes[bytes.len() - 1] != SEPARATOR {
            bytes.push(SEPARATOR);
        }
        bytes.extend_from_slice(rest.bytes.as_slice());
        assert(bytes@ =~= joined(self@, rest@));
        FilePath { bytes }
    }

    /// Extends the path by a relative path written as `text`.
    pub fn join_text(&self, text: &str) -> (r: FilePath)
        ensures
            r@ == joined(self@, encode_utf8(text@)),
    {
        self.join(&FilePath::from_text(text))
    }
}

/// The byte strings of a list of paths.
pub open spec fn path_list(v: Seq<FilePath>) -> Seq<Seq<u8>> {
    v.map_values(|p: FilePath| p@)
}

/// The bytes of an optional path.
pub open spec fn opt_path(p: Option<FilePath>) -> Option<Seq<u8>> {
    match p {
        Some(q) => Some(q@),
        None => None,
    }
}

/// Whether a path with the components of `path` is in `list`.
pub open spec fn lists_path(list: Seq<Seq<u8>>, path: Seq<u8>) -> bool {
    exists|i: int| 0 <= i < list.len() && components(#[trigger] list[i]) == components(path)
}

/// Looks `path` up in `list`.
pub fn contains_path(list: &Vec<FilePath>, path: &FilePath) -> (r: bool)
    ensures
        r == lists_path(path_list(list@), path@),
{
    let mut i: usize = 0;
    while i < list.len()
        invariant
            i <= list@.len(),
            forall|j: int|
                0 <= j < i ==> components(#[trigger] path_list(list@)[j]) != components(path@),
        decreases list@.len() - i,
    {
        assert(path_list(list@)[i as int] == list@[i as int]@);
        if list[i].same_as(path) {
            return true;
        }
        i = i + 1;
    }
    false
}

/// A copy of an optional path.
pub fn copy_opt_path(p: &Option<FilePath>) -> (r: Option<FilePath>)
    ensures
        opt_path(r) == opt_path(*p),
{
    match p {
        Some(q) => Some(q.clone()),
        None => None,
    }
}

// ---------------------------------------------------------------------------
// Laws
// ---------------------------------------------------------------------------

/// The components of a path are what stands between its separators, in order and
/// byte for byte: each further piece is one more component, unless it is empty or
/// a `.`, which add nothing behind the first piece. A separator at the beginning
/// is a component of its own, and so is a `.` there.
pub proof fn law_each_piece_is_a_component(path: Seq<u8>, piece: Seq<u8>)
    requires
        !piece.contains(0x2fu8),
    ensures
        ({
            let names = piece.len() > 0 && piece != seq![0x2eu8];
            &&& path.len() > 0 && names ==> components(path + seq![0x2fu8] + piece) == components(
                path,
            ).push(piece)
            &&& path.len() > 0 && !names ==> components(path + seq![0x2fu8] + piece) == components(
                path,
            )
            &&& names ==> components(seq![0x2fu8] + piece) == seq![seq![0x2fu8], piece]
            &&& !names ==> components(seq![0x2fu8] + piece) == seq![seq![0x2fu8]]
            &&& piece.len() > 0 ==> components(piece) == seq![piece]
            &&& piece.len() == 0 ==> components(piece) == Seq::<Seq<u8>>::empty()
        }),
{
    reveal(Seq::filter);
    let keep = |p: Seq<u8>| is_part(p);
    let none = Seq::<Seq<u8>>::empty();
    let s = path + seq![SEPARATOR] + piece;
    lemma_split_last(path, SEPARATOR, piece);
    let before = split_on(path, SEPARATOR);
    assert(split_on(s, SEPARATOR).drop_last() =~= before);
    assert(split_on(s, SEPARATOR)[0] == before[0]);
    if path.len() > 0 {
        assert(s[0] == path[0]);
        assert(anchor(s) == anchor(path));
        if is_part(piece) {
            assert(parts(s) =~= parts(path).push(piece));
            assert(components(s) =~= components(path).push(piece));
        } else {
            assert(parts(s) =~= parts(path));
        }
    }
    let nothing = Seq::<u8>::empty();
    law_texts_are_split_at_separators(nothing, SEPARATOR, piece);
    law_texts_are_split_at_separators(piece, SEPARATOR, nothing);
    let rooted = seq![SEPARATOR] + piece;
    assert(rooted =~= nothing + seq![SEPARATOR] + piece);
    let pieces = split_on(rooted, SEPARATOR);
    assert(pieces =~= seq![nothing, piece]);
    assert(pieces.drop_last() =~= seq![nothing]);
    assert(seq![nothing].drop_last() =~= none);
    assert(none.filter(keep) =~= none);
    assert(seq![nothing].filter(keep) =~= none);
    assert(rooted[0] == SEPARATOR);
    assert(seq![piece].drop_last() =~= none);
    if is_part(piece) {
        assert(parts(rooted) =~= seq![piece]);
        assert(components(rooted) =~= seq![seq![SEPARATOR], piece]);
    } else {
        assert(parts(rooted) =~= none);
        assert(components(rooted) =~= seq![seq![SEPARATOR]]);
    }
    if piece.len() > 0 {
        assert(piece.contains(piece[0]));
        assert(piece[0] != SEPARATOR);
    }
    if is_part(piece) {
        assert(parts(piece) =~= seq![piece]);
        assert(components(piece) =~= seq![piece]);
    } else {
        assert(parts(piece) =~= none);
        if piece.len() == 0 {
            assert(components(piece) =~= none);
        } else {
            assert(components(piece) =~= seq![piece]);
        }
    }
}

/// A path means the same with separators repeated, with one at its end, and with
/// a `.` between them.
pub proof fn law_empty_pieces_do_not_count(path: Seq<u8>, piece: Seq<u8>)
    requires
        path.len() > 0,
        !piece.contains(0x2fu8),
    ensures
        components(path.push(0x2f)) == components(path),
        components(path.push(0x2f).push(0x2e)) == components(path),
        components(path.push(0x2f).push(0x2f) + piece) == components(path.push(0x2f) + piece),
        components(path.push(0x2f).push(0x2e).push(0x2f) + piece) == components(
            path.push(0x2f) + piece,
        ),
{
    let nothing = Seq::<u8>::empty();
    law_each_piece_is_a_component(path, nothing);
    law_each_piece_is_a_component(path, seq![0x2eu8]);
    law_each_piece_is_a_component(path, piece);
    law_each_piece_is_a_component(path.push(0x2f), piece);
    law_each_piece_is_a_component(path.push(0x2f).push(0x2e), piece);
    assert(path + seq![0x2fu8] + nothing =~= path.push(0x2f));
    assert(path + seq![0x2fu8] + seq![0x2eu8] =~= path.push(0x2f).push(0x2e));
    assert(path + seq![0x2fu8] + piece =~= path.push(0x2f) + piece);
    assert(path.push(0x2f) + seq![0x2fu8] + piece =~= path.push(0x2f).push(0x2f) + piece);
    assert(path.push(0x2f).push(0x2e) + seq![0x2fu8] + piece =~= path.push(0x2f).push(0x2e).push(
        0x2f,
    ) + piece);
}

/// The file that a path names is what stands behind its last separator, or, where
/// that is empty or a `.`, what it would name without it. A path that ends in
/// `..`, the root and the empty path name none.
pub proof fn law_the_last_piece_is_the_file_name(path: Seq<u8>, piece: Seq<u8>)
    requires
        !piece.contains(0x2fu8),
    ensures
        ({
            let names = piece.len() > 0 && piece != seq![0x2eu8] && piece != seq![0x2eu8, 0x2eu8];
            &&& names ==> file_name(path + seq![0x2fu8] + piece) == Some(piece)
            &&& names ==> file_name(piece) == Some(piece)
            &&& !names ==> file_name(piece) is None
            &&& !names ==> file_name(seq![0x2fu8] + piece) is None
            &&& piece == seq![0x2eu8, 0x2eu8] ==> file_name(path + seq![0x2fu8] + piece) is None
            &&& path.len() > 0 && (piece.len() == 0 || piece == seq![0x2eu8]) ==> file_name(
                path + seq![0x2fu8] + piece,
            ) == file_name(path)
        }),
{
    law_each_piece_is_a_component(path, piece);
    if path.len() == 0 {
        assert(path + seq![0x2fu8] + piece =~= seq![0x2fu8] + piece);
    }
    if piece.len() > 0 {
        assert(piece.contains(piece[0]));
        assert(piece[0] != 0x2f);
        assert(seq![0x2fu8][0] == 0x2f);
    }
    let up = seq![0x2eu8, 0x2eu8];
    assert(up.len() == 2 && seq![0x2eu8].len() == 1);
}

/// Joining keeps both paths byte for byte, with one separator between them where
/// neither brings it; an absolute second path stands alone.
pub proof fn law_joining_keeps_both_paths(base: Seq<u8>, rest: Seq<u8>)
    ensures
        rest.len() > 0 && rest[0] == 0x2f ==> joined(base, rest) == rest,
        rest.len() == 0 || rest[0] != 0x2f ==> {
            let r = joined(base, rest);
            &&& r.take(base.len() as int) == base
            &&& r.skip(r.len() - rest.len()) == rest
            &&& base.len() == 0 || base.last() == 0x2f ==> r.len() == base.len() + rest.len()
            &&& base.len() > 0 && base.last() != 0x2f ==> r.len() == base.len() + 1 + rest.len()
                && r[base.len() as int] == 0x2f
        },
{
    if rest.len() == 0 || rest[0] != 0x2f {
        let r = joined(base, rest);
        assert(r.take(base.len() as int) =~= base);
        assert(r.skip(r.len() - rest.len()) =~= rest);
    }
}

/// Looking a path up in a list finds exactly the paths that were put there,
/// however they are spelled.
pub proof fn law_lists_hold_what_was_added(list: Seq<Seq<u8>>, added: Seq<u8>, path: Seq<u8>)
    ensures
        !lists_path(Seq::empty(), path),
        lists_path(list.push(added), path) == (lists_path(list, path) || components(added)
            == components(path)),
{
    let after = list.push(added);
    if lists_path(list, path) {
        let i = choose|i: int|
            0 <= i < list.len() && components(#[trigger] list[i]) == components(path);
        assert(after[i] == list[i]);
    }
    if lists_path(after, path) {
        let i = choose|i: int|
            0 <= i < after.len() && components(#[trigger] after[i]) == components(path);
        if i < list.len() {
            assert(after[i] == list[i]);
        }
    }
    assert(after[list.len() as int] == added);
}

/// A path that was written as text is shown as that text, and any other as its
/// bytes are repaired.
pub proof fn law_text_paths_are_shown_as_written(text: Seq<char>, bytes: Seq<u8>)
    ensures
        text_of_bytes(encode_utf8(text)) == text,
        !valid_utf8(bytes) ==> text_of_bytes(bytes) == utf8_repaired(bytes),
{
    encode_utf8_valid_utf8(text);
    encode_utf8_decode_utf8(text);
}

/// A list of paths has the bytes of each path at its place, and an optional path
/// has bytes if and only if it is there.
pub proof fn law_path_lists_keep_every_path(v: Seq<FilePath>, w: Seq<Vec<u8>>, p: FilePath, i: int)
    ensures
        path_list(v).len() == v.len(),
        0 <= i < v.len() ==> path_list(v)[i] == v[i]@,
        byte_strings(w).len() == w.len(),
        0 <= i < w.len() ==> byte_strings(w)[i] == w[i]@,
        opt_path(Some(p)) == Some(p@),
        opt_path(None) is None,
{
}

/// Two paths are equal if and only if their components are.
pub proof fn law_equal_paths_have_equal_components(a: FilePath, b: FilePath)
    ensures
        vstd::std_specs::cmp::PartialEqSpec::eq_spec(&a, &b) == (components(a@) == components(b@)),
{
}

} // verus!
