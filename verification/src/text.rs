//! Text handling over sequences of characters: the splitting, trimming,
//! replacing, number and padding operations that the other modules parse and
//! render with.
use vstd::prelude::*;
use vstd::string::*;

verus! {

/// `String::push` of std: appends one character to the end of the string.
pub assume_specification[ String::push ](s: &mut String, c: char)
    ensures
        final(s)@ == old(s)@.push(c),
;

/// The characters of `s`, in order.
pub fn chars_of(s: &str) -> (v: Vec<char>)
    ensures
        v@ == s@,
{
    let mut v: Vec<char> = Vec::new();
    for c in it: s.chars()
        invariant
            v@ == it.seq().take(it.index()),
            it.seq() == s@,
    {
        v.push(c);
    }
    v
}

/// The characters `from..to` of `v` as a string.
pub fn string_of(v: &[char], from: usize, to: usize) -> (s: String)
    requires
        from <= to <= v@.len(),
    ensures
        s@ == v@.subrange(from as int, to as int),
{
    let mut s = String::new();
    let mut i: usize = from;
    while i < to
        invariant
            from <= i <= to <= v@.len(),
            s@ == v@.subrange(from as int, i as int),
        decreases to - i,
    {
        s.push(v[i]);
        i = i + 1;
    }
    s
}

/// The string that holds exactly the characters of `v`.
pub fn text_of(v: &[char]) -> (s: String)
    ensures
        s@ == v@,
{
    let s = string_of(v, 0, v.len());
    assert(v@.subrange(0, v@.len() as int) == v@);
    s
}

/// The elements `from..to` of `v`, copied.
pub fn copy_range<T: Copy>(v: &[T], from: usize, to: usize) -> (r: Vec<T>)
    requires
        from <= to <= v@.len(),
    ensures
        r@ == v@.subrange(from as int, to as int),
{
    let mut r: Vec<T> = Vec::new();
    let mut i: usize = from;
    while i < to
        invariant
            from <= i <= to <= v@.len(),
            r@ == v@.subrange(from as int, i as int),
        decreases to - i,
    {
        r.push(v[i]);
        i = i + 1;
    }
    r
}

/// The texts of a list of character vectors.
pub open spec fn texts(v: Seq<Vec<char>>) -> Seq<Seq<char>> {
    v.map_values(|x: Vec<char>| x@)
}

/// The texts of a list of strings.
pub open spec fn strings(v: Seq<String>) -> Seq<Seq<char>> {
    v.map_values(|x: String| x@)
}

/// The text of an optional string.
pub open spec fn opt_text(s: Option<String>) -> Option<Seq<char>> {
    match s {
        Some(t) => Some(t@),
        None => None,
    }
}

/// A copy of an optional string.
pub fn copy_opt(s: &Option<String>) -> (r: Option<String>)
    ensures
        opt_text(r) == opt_text(*s),
{
    match s {
        Some(t) => Some(t.clone()),
        None => None,
    }
}

/// Whether `v` is exactly the text `t`.
pub fn is_text(v: &[char], t: &str) -> (r: bool)
    ensures
        r == (v@ == t@),
{
    let w = chars_of(t);
    same_chars(v, &w)
}

/// Whether two character slices are equal.
pub fn same_chars(a: &[char], b: &[char]) -> (r: bool)
    ensures
        r == (a@ == b@),
{
    if a.len() != b.len() {
        return false;
    }
    let mut i: usize = 0;
    while i < a.len()
        invariant
            i <= a@.len() == b@.len(),
            forall|j: int| 0 <= j < i ==> a@[j] == b@[j],
        decreases a@.len() - i,
    {
        if a[i] != b[i] {
            assert(a@[i as int] != b@[i as int]);
            return false;
        }
        i = i + 1;
    }
    assert(a@ =~= b@);
    true
}

/// Whether `s` begins with `prefix`.
pub open spec fn starts_with(s: Seq<char>, prefix: Seq<char>) -> bool {
    prefix.is_prefix_of(s)
}

/// Whether `v` begins with the text `prefix`.
pub fn has_prefix(v: &[char], prefix: &str) -> (r: bool)
    ensures
        r == starts_with(v@, prefix@),
{
    let p = chars_of(prefix);
    if v.len() < p.len() {
        return false;
    }
    let head = copy_range(v, 0, p.len());
    same_chars(&head, &p)
}

// ---------------------------------------------------------------------------
// Searching and splitting
// ---------------------------------------------------------------------------

/// Index of the first `x` in `s`, or the length of `s` if there is none.
pub open spec fn first_index<T>(s: Seq<T>, x: T) -> int
    decreases s.len(),
{
    if s.len() == 0 || s[0] == x {
        0
    } else {
        1 + first_index(s.skip(1), x)
    }
}

pub proof fn lemma_first_index<T>(s: Seq<T>, x: T, k: int)
    requires
        0 <= k <= s.len(),
        forall|j: int| 0 <= j < k ==> s[j] != x,
        k < s.len() ==> s[k] == x,
    ensures
        first_index(s, x) == k,
    decreases s.len(),
{
    if s.len() > 0 && k > 0 {
        assert(s[0] != x);
        assert forall|j: int| 0 <= j < k - 1 implies s.skip(1)[j] != x by {
            assert(s.skip(1)[j] == s[j + 1]);
        }
        lemma_first_index(s.skip(1), x, k - 1);
    }
}

/// The pieces of `s` between occurrences of `sep`: one more piece than there
/// are separators, empty pieces included.
pub open spec fn split_on<T>(s: Seq<T>, sep: T) -> Seq<Seq<T>>
    decreases s.len(),
{
    let k = first_index(s, sep);
    if 0 <= k < s.len() {
        seq![s.take(k)] + split_on(s.skip(k + 1), sep)
    } else {
        seq![s]
    }
}

/// The first piece of a text ends at its first separator.
pub proof fn lemma_split_first<T>(a: Seq<T>, sep: T, b: Seq<T>)
    requires
        !a.contains(sep),
    ensures
        split_on(a + seq![sep] + b, sep) == seq![a] + split_on(b, sep),
{
    let s = a + seq![sep] + b;
    assert forall|j: int| 0 <= j < a.len() implies s[j] != sep by {
        assert(s[j] == a[j]);
        assert(a.contains(a[j]));
    }
    assert(s[a.len() as int] == sep);
    lemma_first_index(s, sep, a.len() as int);
    assert(s.take(a.len() as int) =~= a);
    assert(s.skip(a.len() as int + 1) =~= b);
}

/// A text that begins without a separator has a first piece that begins so.
pub proof fn lemma_first_piece<T>(a: Seq<T>, b: Seq<T>, sep: T)
    requires
        !a.contains(sep),
    ensures
        split_on(a + b, sep).len() > 0,
        a.is_prefix_of(split_on(a + b, sep)[0]),
{
    let s = a + b;
    let k = lemma_first_index_exists(b, sep);
    assert forall|j: int| 0 <= j < a.len() + k implies s[j] != sep by {
        if j < a.len() {
            assert(a.contains(a[j]));
        } else {
            assert(s[j] == b[j - a.len()]);
        }
    }
    lemma_first_index(s, sep, a.len() + k);
    if k < b.len() {
        assert(split_on(s, sep)[0] == s.take(a.len() + k));
    } else {
        assert(split_on(s, sep)[0] == s);
    }
}

proof fn lemma_first_index_exists<T>(s: Seq<T>, x: T) -> (k: int)
    ensures
        0 <= k <= s.len(),
        forall|j: int| 0 <= j < k ==> s[j] != x,
        k < s.len() ==> s[k] == x,
    decreases s.len(),
{
    if s.len() == 0 || s[0] == x {
        0
    } else {
        let k = lemma_first_index_exists(s.skip(1), x);
        assert forall|j: int| 0 <= j < k + 1 implies s[j] != x by {
            if j > 0 {
                assert(s.skip(1)[j - 1] == s[j]);
            }
        }
        k + 1
    }
}

/// Splits `v` at every `sep`.
pub fn split_chars(v: &[char], sep: char) -> (r: Vec<Vec<char>>)
    ensures
        texts(r@) == split_on(v@, sep),
        r@.len() > 0,
{
    let mut r: Vec<Vec<char>> = Vec::new();
    let mut start: usize = 0;
    let mut i: usize = 0;
    assert(v@.skip(0) == v@);
    assert(texts(r@) =~= Seq::<Seq<char>>::empty());
    assert(split_on(v@, sep) =~= texts(r@) + split_on(v@.skip(0), sep));
    while i < v.len()
        invariant
            start <= i <= v@.len(),
            forall|j: int| start <= j < i ==> v@[j] != sep,
            split_on(v@, sep) == texts(r@) + split_on(v@.skip(start as int), sep),
        decreases v@.len() - i,
    {
        if v[i] == sep {
            let piece = copy_range(v, start, i);
            let ghost before = r@;
            let ghost rest = v@.skip(start as int);
            proof {
                lemma_first_index(rest, sep, i - start);
                assert(rest.take(i - start) =~= piece@);
                assert(rest.skip(i - start + 1) =~= v@.skip(i + 1));
            }
            r.push(piece);
            assert(texts(r@) =~= texts(before).push(piece@));
            assert(texts(before) + (seq![piece@] + split_on(v@.skip(i + 1), sep))
                =~= texts(r@) + split_on(v@.skip(i + 1), sep));
            start = i + 1;
        }
        i = i + 1;
    }
    let last = copy_range(v, start, v.len());
    let ghost before = r@;
    proof {
        let rest = v@.skip(start as int);
        lemma_first_index(rest, sep, rest.len() as int);
        assert(rest =~= last@);
    }
    r.push(last);
    assert(texts(r@) =~= texts(before) + seq![last@]);
    r
}

/// A line without the carriage return that may precede its line feed.
pub open spec fn without_cr(s: Seq<char>) -> Seq<char> {
    if s.len() > 0 && s.last() == '\r' {
        s.drop_last()
    } else {
        s
    }
}

/// The lines of `s`: text up to each line feed (a carriage return right before
/// it belongs to the line ending), and what follows the last line feed unless
/// that is empty.
pub open spec fn lines(s: Seq<char>) -> Seq<Seq<char>>
    decreases s.len(),
{
    let k = first_index(s, '\n');
    if s.len() == 0 {
        Seq::empty()
    } else if 0 <= k < s.len() {
        seq![without_cr(s.take(k))] + lines(s.skip(k + 1))
    } else {
        seq![s]
    }
}

/// Splits `v` into its lines.
pub fn split_lines(v: &[char]) -> (r: Vec<Vec<char>>)
    ensures
        texts(r@) == lines(v@),
{
    let mut r: Vec<Vec<char>> = Vec::new();
    let mut start: usize = 0;
    let mut i: usize = 0;
    assert(v@.skip(0) == v@);
    assert(texts(r@) =~= Seq::<Seq<char>>::empty());
    assert(lines(v@) =~= texts(r@) + lines(v@.skip(0)));
    while i < v.len()
        invariant
            start <= i <= v@.len(),
            forall|j: int| start <= j < i ==> v@[j] != '\n',
            lines(v@) == texts(r@) + lines(v@.skip(start as int)),
        decreases v@.len() - i,
    {
        if v[i] == '\n' {
            let end: usize = if i > start && v[i - 1] == '\r' {
                i - 1
            } else {
                i
            };
            let piece = copy_range(v, start, end);
            let ghost before = r@;
            let ghost rest = v@.skip(start as int);
            proof {
                lemma_first_index(rest, '\n', i - start);
                assert(rest.take(i - start) =~= v@.subrange(start as int, i as int));
                assert(without_cr(rest.take(i - start)) =~= piece@);
                assert(rest.skip(i - start + 1) =~= v@.skip(i + 1));
            }
            r.push(piece);
            assert(texts(r@) =~= texts(before).push(piece@));
            assert(texts(before) + (seq![piece@] + lines(v@.skip(i + 1))) =~= texts(r@) + lines(
                v@.skip(i + 1),
            ));
            start = i + 1;
        }
        i = i + 1;
    }
    if start < v.len() {
        let last = copy_range(v, start, v.len());
        let ghost before = r@;
        proof {
            let rest = v@.skip(start as int);
            lemma_first_index(rest, '\n', rest.len() as int);
            assert(rest =~= last@);
        }
        r.push(last);
        assert(texts(r@) =~= texts(before) + seq![last@]);
    } else {
        assert(v@.skip(start as int) =~= Seq::<char>::empty());
        assert(texts(r@) + Seq::<Seq<char>>::empty() =~= texts(r@));
    }
    r
}

/// Whether `pat` occurs in `s` at position `i`.
pub open spec fn occurs_at(s: Seq<char>, pat: Seq<char>, i: int) -> bool {
    0 <= i && i + pat.len() <= s.len() && s.subrange(i, i + pat.len()) == pat
}

/// Position of the first occurrence of `pat` in `s`.
pub open spec fn find(s: Seq<char>, pat: Seq<char>) -> Option<int> {
    if exists|i: int| is_first_occurrence(s, pat, i) {
        Some(choose|i: int| is_first_occurrence(s, pat, i))
    } else {
        None
    }
}

pub open spec fn is_first_occurrence(s: Seq<char>, pat: Seq<char>, i: int) -> bool {
    &&& occurs_at(s, pat, i)
    &&& forall|j: int| 0 <= j < i ==> !occurs_at(s, pat, j)
}

/// Whether `pat` stands in `v` at position `i`.
pub fn matches_at(v: &[char], pat: &[char], i: usize) -> (r: bool)
    requires
        i <= v@.len(),
    ensures
        r == occurs_at(v@, pat@, i as int),
{
    if v.len() - i < pat.len() {
        return false;
    }
    let here = copy_range(v, i, i + pat.len());
    same_chars(&here, pat)
}

/// Finds the first occurrence of the non-empty `pat` in `v`.
pub fn find_chars(v: &[char], pat: &[char]) -> (r: Option<usize>)
    requires
        pat@.len() > 0,
    ensures
        match r {
            Some(i) => find(v@, pat@) == Some(i as int) && occurs_at(v@, pat@, i as int),
            None => find(v@, pat@) is None,
        },
{
    let mut i: usize = 0;
    while i < v.len()
        invariant
            i <= v@.len(),
            pat@.len() > 0,
            forall|j: int| 0 <= j < i ==> !occurs_at(v@, pat@, j),
        decreases v@.len() - i,
    {
        if matches_at(v, pat, i) {
            proof {
                assert(is_first_occurrence(v@, pat@, i as int));
                let k = choose|k: int| is_first_occurrence(v@, pat@, k);
                assert(k == i);
            }
            return Some(i);
        }
        i = i + 1;
    }
    assert(forall|j: int| !occurs_at(v@, pat@, j));
    None
}

/// `s` with every occurrence of `pat`, found from left to right without
/// overlap, replaced by `by`.
pub open spec fn replace_all(s: Seq<char>, pat: Seq<char>, by: Seq<char>) -> Seq<char>
    decreases s.len(),
{
    if s.len() == 0 {
        s
    } else if pat.len() > 0 && occurs_at(s, pat, 0) {
        by + replace_all(s.skip(pat.len() as int), pat, by)
    } else {
        seq![s[0]] + replace_all(s.skip(1), pat, by)
    }
}

/// Replaces every occurrence of the non-empty `pat` in `v` by `by`.
pub fn replace_chars(v: &[char], pat: &str, by: char) -> (r: Vec<char>)
    requires
        pat@.len() > 0,
    ensures
        r@ == replace_all(v@, pat@, seq![by]),
{
    let p = chars_of(pat);
    let mut r: Vec<char> = Vec::new();
    let mut i: usize = 0;
    assert(v@.skip(0) == v@);
    assert(replace_all(v@, pat@, seq![by]) =~= r@ + replace_all(v@.skip(0), pat@, seq![by]));
    while i < v.len()
        invariant
            i <= v@.len(),
            p@ == pat@,
            p@.len() > 0,
            replace_all(v@, pat@, seq![by]) == r@ + replace_all(
                v@.skip(i as int),
                pat@,
                seq![by],
            ),
        decreases v@.len() - i,
    {
        let ghost rest = v@.skip(i as int);
        let ghost before = r@;
        if matches_at(v, &p, i) {
            r.push(by);
            proof {
                assert(rest.subrange(0, p@.len() as int) =~= v@.subrange(
                    i as int,
                    i + p@.len() as int,
                ));
                assert(occurs_at(rest, pat@, 0));
                assert(rest.skip(p@.len() as int) =~= v@.skip(i + p@.len() as int));
                let tail = replace_all(v@.skip(i + p@.len() as int), pat@, seq![by]);
                assert(before + (seq![by] + tail) =~= r@ + tail);
            }
            i = i + p.len();
        } else {
            r.push(v[i]);
            proof {
                if occurs_at(rest, pat@, 0) {
                    assert(rest.subrange(0, p@.len() as int) =~= v@.subrange(
                        i as int,
                        i + p@.len() as int,
                    ));
                    assert(occurs_at(v@, pat@, i as int));
                }
                assert(rest.skip(1) =~= v@.skip(i + 1));
                let tail = replace_all(v@.skip(i + 1), pat@, seq![by]);
                assert(before + (seq![rest[0]] + tail) =~= r@ + tail);
            }
            i = i + 1;
        }
    }
    assert(v@.skip(i as int) =~= Seq::<char>::empty());
    assert(r@ + Seq::<char>::empty() =~= r@);
    r
}

// ---------------------------------------------------------------------------
// Whitespace
// ---------------------------------------------------------------------------

/// The characters with the Unicode property `White_Space`.
pub open spec fn is_white(c: char) -> bool {
    ||| '\u{9}' <= c <= '\u{d}'
    ||| c == '\u{20}'
    ||| c == '\u{85}'
    ||| c == '\u{a0}'
    ||| c == '\u{1680}'
    ||| '\u{2000}' <= c <= '\u{200a}'
    ||| c == '\u{2028}'
    ||| c == '\u{2029}'
    ||| c == '\u{202f}'
    ||| c == '\u{205f}'
    ||| c == '\u{3000}'
}

/// Whether `c` is white space.
pub fn white(c: char) -> (r: bool)
    ensures
        r == is_white(c),
{
    ('\u{9}' <= c && c <= '\u{d}') || c == '\u{20}' || c == '\u{85}' || c == '\u{a0}' || c
        == '\u{1680}' || ('\u{2000}' <= c && c <= '\u{200a}') || c == '\u{2028}' || c == '\u{2029}'
        || c == '\u{202f}' || c == '\u{205f}' || c == '\u{3000}'
}

/// `s` without its leading white space.
pub open spec fn trim_start(s: Seq<char>) -> Seq<char>
    decreases s.len(),
{
    if s.len() > 0 && is_white(s[0]) {
        trim_start(s.skip(1))
    } else {
        s
    }
}

/// `s` without its trailing white space.
pub open spec fn trim_end(s: Seq<char>) -> Seq<char>
    decreases s.len(),
{
    if s.len() > 0 && is_white(s.last()) {
        trim_end(s.drop_last())
    } else {
        s
    }
}

/// `s` without leading and trailing white space.
pub open spec fn trim(s: Seq<char>) -> Seq<char> {
    trim_end(trim_start(s))
}

/// Removes leading and trailing white space.
pub fn trim_chars(v: &[char]) -> (r: Vec<char>)
    ensures
        r@ == trim(v@),
{
    let mut from: usize = 0;
    assert(v@.skip(0) == v@);
    while from < v.len() && white(v[from])
        invariant
            from <= v@.len(),
            trim_start(v@) == trim_start(v@.skip(from as int)),
        decreases v@.len() - from,
    {
        assert(v@.skip(from as int).skip(1) =~= v@.skip(from + 1));
        from = from + 1;
    }
    let mut to: usize = v.len();
    assert(v@.subrange(from as int, to as int) =~= v@.skip(from as int));
    while to > from && white(v[to - 1])
        invariant
            from <= to <= v@.len(),
            trim(v@) == trim_end(v@.subrange(from as int, to as int)),
        decreases to,
    {
        assert(v@.subrange(from as int, to as int).drop_last() =~= v@.subrange(
            from as int,
            to - 1,
        ));
        to = to - 1;
    }
    copy_range(v, from, to)
}

/// Length of the longest prefix of `s` without white space.
pub open spec fn word_len(s: Seq<char>) -> int
    decreases s.len(),
{
    if s.len() == 0 || is_white(s[0]) {
        0
    } else {
        1 + word_len(s.skip(1))
    }
}

pub proof fn lemma_word_len(s: Seq<char>, k: int)
    requires
        0 <= k <= s.len(),
        forall|j: int| 0 <= j < k ==> !is_white(#[trigger] s[j]),
        k < s.len() ==> is_white(s[k]),
    ensures
        word_len(s) == k,
    decreases s.len(),
{
    if s.len() > 0 && k > 0 {
        assert(!is_white(s[0]));
        assert forall|j: int| 0 <= j < k - 1 implies !is_white(#[trigger] s.skip(1)[j]) by {
            assert(s.skip(1)[j] == s[j + 1]);
        }
        lemma_word_len(s.skip(1), k - 1);
    }
}

/// The maximal runs of non-white characters of `s`, in order.
pub open spec fn words(s: Seq<char>) -> Seq<Seq<char>>
    decreases s.len(),
{
    if s.len() == 0 {
        Seq::empty()
    } else if is_white(s[0]) {
        words(s.skip(1))
    } else {
        let k = word_len(s);
        if 0 < k <= s.len() {
            seq![s.take(k)] + words(s.skip(k))
        } else {
            Seq::empty()
        }
    }
}

/// Splits `v` at runs of white space, without empty pieces.
pub fn split_words(v: &[char]) -> (r: Vec<Vec<char>>)
    ensures
        texts(r@) == words(v@),
{
    let mut r: Vec<Vec<char>> = Vec::new();
    let mut i: usize = 0;
    assert(v@.skip(0) == v@);
    assert(texts(r@) =~= Seq::<Seq<char>>::empty());
    assert(words(v@) =~= texts(r@) + words(v@.skip(0)));
    while i < v.len()
        invariant
            i <= v@.len(),
            words(v@) == texts(r@) + words(v@.skip(i as int)),
        decreases v@.len() - i,
    {
        let ghost rest = v@.skip(i as int);
        if white(v[i]) {
            assert(rest.skip(1) =~= v@.skip(i + 1));
            i = i + 1;
        } else {
            let mut to: usize = i + 1;
            while to < v.len() && !white(v[to])
                invariant
                    i < to <= v@.len(),
                    forall|j: int| i <= j < to ==> !is_white(#[trigger] v@[j]),
                decreases v@.len() - to,
            {
                to = to + 1;
            }
            let piece = copy_range(v, i, to);
            let ghost before = r@;
            proof {
                lemma_word_len(rest, to - i);
                assert(rest.take(to - i) =~= piece@);
                assert(rest.skip(to - i) =~= v@.skip(to as int));
            }
            r.push(piece);
            assert(texts(r@) =~= texts(before).push(piece@));
            assert(texts(before) + (seq![piece@] + words(v@.skip(to as int))) =~= texts(r@) + words(
                v@.skip(to as int),
            ));
            i = to;
        }
    }
    assert(v@.skip(i as int) =~= Seq::<char>::empty());
    assert(texts(r@) + Seq::<Seq<char>>::empty() =~= texts(r@));
    r
}

// ---------------------------------------------------------------------------
// Decimal numbers
// ---------------------------------------------------------------------------

pub open spec fn is_digit(c: char) -> bool {
    '0' <= c <= '9'
}

/// The value that the digit `c` stands for.
pub open spec fn digit_value(c: char) -> nat {
    (c as int - '0' as int) as nat
}

/// The number that a sequence of decimal digits stands for.
pub open spec fn decimal_value(s: Seq<char>) -> nat
    decreases s.len(),
{
    if s.len() == 0 {
        0
    } else {
        decimal_value(s.drop_last()) * 10 + digit_value(s.last())
    }
}

/// What follows an optional leading `+`.
pub open spec fn unsigned_part(s: Seq<char>) -> Seq<char> {
    if s.len() > 0 && s[0] == '+' {
        s.skip(1)
    } else {
        s
    }
}

pub open spec fn all_digits(s: Seq<char>) -> bool {
    forall|i: int| 0 <= i < s.len() ==> is_digit(#[trigger] s[i])
}

/// The number that `s` denotes: an optional `+` and at least one decimal digit,
/// no more than `max`.
pub open spec fn parse_number(s: Seq<char>, max: nat) -> Option<nat> {
    let digits = unsigned_part(s);
    if digits.len() > 0 && all_digits(digits) && decimal_value(digits) <= max {
        Some(decimal_value(digits))
    } else {
        None
    }
}

proof fn lemma_prefix_value(s: Seq<char>, k: int)
    requires
        0 <= k <= s.len(),
    ensures
        decimal_value(s.take(k)) <= decimal_value(s),
    decreases s.len() - k,
{
    if k < s.len() {
        lemma_prefix_value(s, k + 1);
        assert(s.take(k + 1).drop_last() =~= s.take(k));
    } else {
        assert(s.take(k) =~= s);
    }
}

/// Reads `v` as an unsigned decimal number no greater than `max`.
pub fn parse_decimal(v: &[char], max: u64) -> (r: Option<u64>)
    ensures
        match r {
            Some(n) => parse_number(v@, max as nat) == Some(n as nat),
            None => parse_number(v@, max as nat) is None,
        },
{
    let from: usize = if v.len() > 0 && v[0] == '+' {
        1
    } else {
        0
    };
    let ghost digits = v@.skip(from as int);
    assert(v@.skip(0) == v@);
    if from == v.len() {
        return None;
    }
    let mut acc: u64 = 0;
    let mut i: usize = from;
    assert(digits.take(0) =~= Seq::<char>::empty());
    while i < v.len()
        invariant
            from <= i <= v@.len(),
            digits == v@.skip(from as int),
            digits == unsigned_part(v@),
            acc <= max,
            acc == decimal_value(digits.take(i - from)),
            forall|j: int| 0 <= j < i - from ==> is_digit(#[trigger] digits[j]),
        decreases v@.len() - i,
    {
        let c = v[i];
        assert(digits[i - from] == c);
        if c < '0' || c > '9' {
            assert(!is_digit(digits[i - from]));
            return None;
        }
        let d: u64 = (c as u32 - '0' as u32) as u64;
        proof {
            lemma_prefix_value(digits, i - from + 1);
            assert(digits.take(i - from + 1).drop_last() =~= digits.take(i - from));
        }
        if acc > max / 10 || acc * 10 > max || d > max - acc * 10 {
            return None;
        }
        acc = acc * 10 + d;
        i = i + 1;
    }
    assert(digits.take(i - from) =~= digits);
    Some(acc)
}

/// The decimal digit for `d`.
pub open spec fn digit_char(d: nat) -> char {
    ('0' as nat + d) as char
}

/// `n` in decimal.
pub open spec fn decimal(n: nat) -> Seq<char>
    decreases n,
{
    if n < 10 {
        seq![digit_char(n)]
    } else {
        decimal(n / 10).push(digit_char(n % 10))
    }
}

pub proof fn lemma_decimal_digits(n: nat)
    ensures
        decimal(n).len() > 0,
        all_digits(decimal(n)),
    decreases n,
{
    if n >= 10 {
        lemma_decimal_digits(n / 10);
    }
}

/// Reading a number that was written in decimal gives it back.
pub proof fn lemma_decimal_round_trip(n: nat, max: nat)
    requires
        n <= max,
    ensures
        decimal_value(decimal(n)) == n,
        parse_number(decimal(n), max) == Some(n),
    decreases n,
{
    lemma_decimal_digits(n);
    if n >= 10 {
        lemma_decimal_round_trip(n / 10, max);
        assert(decimal(n).drop_last() =~= decimal(n / 10));
        assert(decimal(n).last() == digit_char(n % 10));
        assert(digit_value(digit_char(n % 10)) == n % 10);
    } else {
        assert(decimal(n).drop_last() =~= Seq::<char>::empty());
        assert(decimal_value(Seq::<char>::empty()) == 0);
        assert(digit_value(digit_char(n)) == n);
    }
    assert(is_digit(decimal(n)[0]));
}

fn digit(d: u64) -> (c: char)
    requires
        d < 10,
    ensures
        c == digit_char(d as nat),
{
    match d {
        0 => '0',
        1 => '1',
        2 => '2',
        3 => '3',
        4 => '4',
        5 => '5',
        6 => '6',
        7 => '7',
        8 => '8',
        _ => '9',
    }
}

/// Writes `n` in decimal.
pub fn decimal_string(n: u64) -> (s: String)
    ensures
        s@ == decimal(n as nat),
    decreases n,
{
    if n < 10 {
        let mut s = String::new();
        s.push(digit(n));
        assert(s@ =~= seq![digit_char(n as nat)]);
        s
    } else {
        let mut s = decimal_string(n / 10);
        s.push(digit(n % 10));
        s
    }
}

// ---------------------------------------------------------------------------
// Padding
// ---------------------------------------------------------------------------

/// `n` spaces.
pub open spec fn spaces(n: int) -> Seq<char> {
    Seq::new((if n > 0 { n } else { 0 }) as nat, |i: int| ' ')
}

/// `s` followed by spaces up to `width` characters.
pub open spec fn pad_right(s: Seq<char>, width: int) -> Seq<char> {
    s + spaces(width - s.len())
}

/// Spaces up to `width` characters, then `s`.
pub open spec fn pad_left(s: Seq<char>, width: int) -> Seq<char> {
    spaces(width - s.len()) + s
}

fn push_spaces(s: &mut String, n: usize)
    ensures
        final(s)@ == old(s)@ + spaces(n as int),
{
    let mut i: usize = 0;
    let ghost before = s@;
    assert(before =~= before + spaces(0));
    while i < n
        invariant
            i <= n,
            s@ == before + spaces(i as int),
        decreases n - i,
    {
        s.push(' ');
        i = i + 1;
        assert(s@ =~= before + spaces(i as int));
    }
}

/// Left-aligns `t` in a field of `width` characters.
pub fn padded_right(t: &str, width: usize) -> (s: String)
    ensures
        s@ == pad_right(t@, width as int),
{
    let n: usize = t.unicode_len();
    let mut s = t.to_string();
    if n < width {
        push_spaces(&mut s, width - n);
    } else {
        assert(s@ =~= pad_right(t@, width as int));
    }
    s
}

/// Right-aligns `t` in a field of `width` characters.
pub fn padded_left(t: &str, width: usize) -> (s: String)
    ensures
        s@ == pad_left(t@, width as int),
{
    let n: usize = t.unicode_len();
    let mut s = String::new();
    if n < width {
        push_spaces(&mut s, width - n);
    }
    s.append(t);
    assert(s@ =~= pad_left(t@, width as int));
    s
}

// ---------------------------------------------------------------------------
// Laws
// ---------------------------------------------------------------------------

/// A text is split at each separator and nowhere else: what precedes the first
/// separator is the first piece, and what follows it is split the same way.
pub proof fn law_texts_are_split_at_separators<T>(a: Seq<T>, sep: T, b: Seq<T>)
    requires
        !a.contains(sep),
    ensures
        split_on(a, sep) == seq![a],
        split_on(a + seq![sep] + b, sep) == seq![a] + split_on(b, sep),
{
    assert forall|j: int| 0 <= j < a.len() implies a[j] != sep by {
        assert(a.contains(a[j]));
    }
    lemma_first_index(a, sep, a.len() as int);
    lemma_split_first(a, sep, b);
}

/// The last piece of a text begins behind its last separator.
pub proof fn lemma_split_last<T>(b: Seq<T>, sep: T, a: Seq<T>)
    requires
        !a.contains(sep),
    ensures
        split_on(b + seq![sep] + a, sep) == split_on(b, sep).push(a),
        split_on(b, sep).len() > 0,
    decreases b.len(),
{
    let k = lemma_first_index_exists(b, sep);
    let s = b + seq![sep] + a;
    lemma_first_index(b, sep, k);
    assert forall|j: int| 0 <= j < k implies s[j] != sep by {
        assert(s[j] == b[j]);
    }
    if k < b.len() {
        let rest = b.skip(k + 1);
        assert(s[k] == sep);
        lemma_first_index(s, sep, k);
        lemma_split_last(rest, sep, a);
        assert(s.take(k) =~= b.take(k));
        assert(s.skip(k + 1) =~= rest + seq![sep] + a);
        assert(seq![b.take(k)] + split_on(rest, sep).push(a) =~= (seq![b.take(k)] + split_on(
            rest,
            sep,
        )).push(a));
    } else {
        assert(!b.contains(sep));
        law_texts_are_split_at_separators(b, sep, a);
        law_texts_are_split_at_separators(a, sep, b);
        assert(seq![b] + seq![a] =~= seq![b].push(a));
    }
}

/// A line ends at a line feed, without the carriage return right before it. What
/// follows the last line feed is a line of its own, whatever it ends with, unless
/// it is empty.
pub proof fn law_lines_end_at_line_feeds(a: Seq<char>, b: Seq<char>)
    requires
        !a.contains('\n'),
    ensures
        lines(Seq::empty()) == Seq::<Seq<char>>::empty(),
        a.len() > 0 ==> lines(a) == seq![a],
        a.len() > 0 && a.last() == '\r' ==> lines(a + seq!['\n'] + b) == seq![a.drop_last()] + lines(
            b,
        ),
        a.len() == 0 || a.last() != '\r' ==> lines(a + seq!['\n'] + b) == seq![a] + lines(b),
{
    let s = a + seq!['\n'] + b;
    assert forall|j: int| 0 <= j < a.len() implies a[j] != '\n' && s[j] != '\n' by {
        assert(a.contains(a[j]));
    }
    lemma_first_index(a, '\n', a.len() as int);
    assert(s[a.len() as int] == '\n');
    lemma_first_index(s, '\n', a.len() as int);
    assert(s.take(a.len() as int) =~= a);
    assert(s.skip(a.len() as int + 1) =~= b);
}

/// What is found stands in the text at that place and at no earlier one; where
/// nothing is found, it stands nowhere in the text.
pub proof fn law_the_first_occurrence_is_found(s: Seq<char>, pat: Seq<char>, j: int)
    requires
        0 <= j,
        j + pat.len() <= s.len(),
    ensures
        find(s, pat) matches Some(i) ==> 0 <= i <= s.len() - pat.len() && s.subrange(
            i,
            i + pat.len(),
        ) == pat,
        s.subrange(j, j + pat.len()) == pat ==> find(s, pat) is Some && find(s, pat)->0 <= j,
{
    if s.subrange(j, j + pat.len()) == pat {
        lemma_some_occurrence_is_first(s, pat, j);
        let i = choose|i: int| is_first_occurrence(s, pat, i);
        assert(is_first_occurrence(s, pat, i));
        assert(occurs_at(s, pat, j));
        assert(i <= j);
    }
}

proof fn lemma_some_occurrence_is_first(s: Seq<char>, pat: Seq<char>, j: int)
    requires
        occurs_at(s, pat, j),
    ensures
        exists|i: int| is_first_occurrence(s, pat, i),
    decreases j,
{
    if exists|i: int| 0 <= i < j && occurs_at(s, pat, i) {
        let i = choose|i: int| 0 <= i < j && occurs_at(s, pat, i);
        lemma_some_occurrence_is_first(s, pat, i);
    } else {
        assert(is_first_occurrence(s, pat, j));
    }
}

/// Every occurrence of a pattern is replaced, going on behind it, and any other
/// character is kept.
pub proof fn law_every_occurrence_is_replaced(s: Seq<char>, pat: Seq<char>, by: Seq<char>, c: char)
    requires
        pat.len() > 0,
    ensures
        replace_all(Seq::empty(), pat, by) == Seq::<char>::empty(),
        replace_all(pat + s, pat, by) == by + replace_all(s, pat, by),
        !pat.is_prefix_of(seq![c] + s) ==> replace_all(seq![c] + s, pat, by) == seq![c]
            + replace_all(s, pat, by),
{
    assert((pat + s).subrange(0, pat.len() as int) =~= pat);
    assert(occurs_at(pat + s, pat, 0));
    assert((pat + s).skip(pat.len() as int) =~= s);
    let t = seq![c] + s;
    assert(t.skip(1) =~= s);
    if occurs_at(t, pat, 0) {
        assert(pat.is_prefix_of(t));
    }
}

/// White space is what Unicode counts as such, by code point.
pub proof fn law_white_space_is_that_of_unicode(c: char)
    ensures
        is_white(c) <==> {
            let n = c as u32;
            ||| 9 <= n <= 13
            ||| n == 32
            ||| n == 133
            ||| n == 160
            ||| n == 5760
            ||| 8192 <= n <= 8202
            ||| n == 8232
            ||| n == 8233
            ||| n == 8239
            ||| n == 8287
            ||| n == 12288
        },
{
}

/// Trimming takes all white space off both ends of a text and nothing else.
pub proof fn law_trimming_takes_white_ends_off(before: Seq<char>, s: Seq<char>, after: Seq<char>)
    requires
        forall|i: int| 0 <= i < before.len() ==> is_white(#[trigger] before[i]),
        forall|i: int| 0 <= i < after.len() ==> is_white(#[trigger] after[i]),
        s.len() > 0 ==> !is_white(s[0]) && !is_white(s.last()),
    ensures
        trim(before + s + after) == s,
{
    if s.len() > 0 {
        assert(before + s + after =~= before + (s + after));
        assert((s + after)[0] == s[0]);
        lemma_trim_start(before, s + after);
        lemma_trim_end(s, after);
    } else {
        let all = before + after;
        assert forall|i: int| 0 <= i < all.len() implies is_white(#[trigger] all[i]) by {
            if i < before.len() {
                assert(all[i] == before[i]);
            } else {
                assert(all[i] == after[i - before.len()]);
            }
        }
        assert(before + s + after =~= all + Seq::<char>::empty());
        lemma_trim_start(all, Seq::empty());
        assert(s =~= Seq::<char>::empty());
    }
}

proof fn lemma_trim_start(white: Seq<char>, s: Seq<char>)
    requires
        forall|i: int| 0 <= i < white.len() ==> is_white(#[trigger] white[i]),
        s.len() > 0 ==> !is_white(s[0]),
    ensures
        trim_start(white + s) == s,
    decreases white.len(),
{
    if white.len() > 0 {
        let rest = white.skip(1);
        assert((white + s)[0] == white[0]);
        assert((white + s).skip(1) =~= rest + s);
        assert forall|i: int| 0 <= i < rest.len() implies is_white(#[trigger] rest[i]) by {
            assert(rest[i] == white[i + 1]);
        }
        lemma_trim_start(rest, s);
    } else {
        assert(white + s =~= s);
    }
}

proof fn lemma_trim_end(s: Seq<char>, white: Seq<char>)
    requires
        forall|i: int| 0 <= i < white.len() ==> is_white(#[trigger] white[i]),
        s.len() > 0 ==> !is_white(s.last()),
    ensures
        trim_end(s + white) == s,
    decreases white.len(),
{
    if white.len() > 0 {
        let rest = white.drop_last();
        assert((s + white).last() == white.last());
        assert((s + white).drop_last() =~= s + rest);
        assert forall|i: int| 0 <= i < rest.len() implies is_white(#[trigger] rest[i]) by {
            assert(rest[i] == white[i]);
        }
        lemma_trim_end(s, rest);
    } else {
        assert(s + white =~= s);
    }
}

/// The words of a text are its pieces between white space: a run of other
/// characters is a word up to the white space behind it, and white space is none.
pub proof fn law_words_stand_between_white_space(w: Seq<char>, c: char, s: Seq<char>)
    requires
        forall|i: int| 0 <= i < w.len() ==> !is_white(#[trigger] w[i]),
        is_white(c),
    ensures
        words(Seq::empty()) == Seq::<Seq<char>>::empty(),
        words(seq![c] + s) == words(s),
        w.len() > 0 ==> words(w) == seq![w],
        w.len() > 0 ==> words(w + seq![c] + s) == seq![w] + words(s),
{
    let t = seq![c] + s;
    assert(t[0] == c);
    assert(t.skip(1) =~= s);
    if w.len() > 0 {
        let k = w.len() as int;
        let all = w + seq![c] + s;
        lemma_word_len(w, k);
        assert(w.take(k) =~= w);
        assert(w.skip(k) =~= Seq::<char>::empty());
        assert forall|j: int| 0 <= j < k implies !is_white(#[trigger] all[j]) by {
            assert(all[j] == w[j]);
        }
        assert(all[k] == c);
        lemma_word_len(all, k);
        assert(all.take(k) =~= w);
        assert(all.skip(k) =~= t);
        assert(all[0] == w[0]);
        assert(!is_white(w[0]));
        assert(seq![w] + Seq::<Seq<char>>::empty() =~= seq![w]);
    }
}

/// Digits are read from left to right: each one more makes ten times the number
/// before it and its own value.
pub proof fn law_numbers_are_read_digit_by_digit(s: Seq<char>, c: char)
    requires
        '0' <= c <= '9',
    ensures
        decimal_value(Seq::empty()) == 0,
        decimal_value(s.push(c)) == 10 * decimal_value(s) + (c as int - 48),
{
    assert(s.push(c).drop_last() =~= s);
}

/// A number is read if and only if the text is at least one decimal digit, with
/// or without one `+` before, and the number does not exceed the limit.
pub proof fn law_only_digits_are_numbers(s: Seq<char>, max: nat, i: int)
    ensures
        parse_number(s, max) matches Some(n) ==> n <= max,
        parse_number(Seq::empty(), max) is None,
        s.len() > 0 && (forall|j: int| 0 <= j < s.len() ==> '0' <= #[trigger] s[j] <= '9')
            && decimal_value(s) <= max ==> parse_number(s, max) == Some(decimal_value(s)),
        s.len() > 0 && (forall|j: int| 0 <= j < s.len() ==> '0' <= #[trigger] s[j] <= '9')
            && decimal_value(s) > max ==> parse_number(s, max) is None,
        0 <= i < s.len() && !('0' <= s[i] <= '9') && !(i == 0 && s[i] == '+') ==> parse_number(
            s,
            max,
        ) is None,
        s.len() == 0 || s[0] != '+' ==> parse_number(seq!['+'] + s, max) == parse_number(s, max),
{
    let signed = seq!['+'] + s;
    assert(signed.skip(1) =~= s);
    assert(signed[0] == '+');
    if s.len() > 0 && (forall|j: int| 0 <= j < s.len() ==> '0' <= #[trigger] s[j] <= '9') {
        assert('0' <= s[0] <= '9');
        assert(all_digits(s));
    }
    if 0 <= i < s.len() && !('0' <= s[i] <= '9') && !(i == 0 && s[i] == '+') {
        let digits = unsigned_part(s);
        if s[0] == '+' {
            assert(digits[i - 1] == s[i]);
        } else {
            assert(digits[i] == s[i]);
        }
    }
}

/// A number is written in decimal digits that stand for it, without a zero in
/// front of them.
pub proof fn law_decimals_stand_for_the_number(n: nat)
    ensures
        decimal(n).len() > 0,
        forall|i: int| 0 <= i < decimal(n).len() ==> '0' <= #[trigger] decimal(n)[i] <= '9',
        decimal_value(decimal(n)) == n,
        n > 0 ==> decimal(n)[0] != '0',
        n == 0 ==> decimal(n) == seq!['0'],
    decreases n,
{
    lemma_decimal_digits(n);
    lemma_decimal_round_trip(n, n);
    assert forall|i: int| 0 <= i < decimal(n).len() implies '0' <= #[trigger] decimal(n)[i]
        <= '9' by {
        assert(is_digit(decimal(n)[i]));
    }
    if n >= 10 {
        law_decimals_stand_for_the_number(n / 10);
        assert(decimal(n)[0] == decimal(n / 10)[0]);
    }
}

/// Padding brings a text to the width of its field with spaces on one side, and
/// keeps it whole where it is wider.
pub proof fn law_padding_fills_the_field(s: Seq<char>, width: int, i: int)
    ensures
        pad_right(s, width).len() == (if width > s.len() {
            width
        } else {
            s.len() as int
        }),
        pad_left(s, width).len() == pad_right(s, width).len(),
        0 <= i < s.len() ==> pad_right(s, width)[i] == s[i],
        s.len() <= i < width ==> pad_right(s, width)[i] == ' ',
        0 <= i < width - s.len() ==> pad_left(s, width)[i] == ' ',
        0 <= i < s.len() ==> pad_left(s, width)[pad_left(s, width).len() - s.len() + i] == s[i],
{
}

/// A text begins with another if and only if it is that text and something more.
pub proof fn law_beginnings_are_prefixes(s: Seq<char>, prefix: Seq<char>, rest: Seq<char>)
    ensures
        starts_with(prefix + rest, prefix),
        starts_with(s, prefix) ==> s.len() >= prefix.len() && s == prefix + s.skip(
            prefix.len() as int,
        ),
{
    assert(prefix.is_prefix_of(prefix + rest));
    if starts_with(s, prefix) {
        assert(s =~= prefix + s.skip(prefix.len() as int));
    }
}

/// A list of strings has the text of each string at its place, and an optional
/// string has a text if and only if it is there.
pub proof fn law_lists_keep_every_text(v: Seq<String>, w: Seq<Vec<char>>, s: String, i: int)
    ensures
        strings(v).len() == v.len(),
        0 <= i < v.len() ==> strings(v)[i] == v[i]@,
        texts(w).len() == w.len(),
        0 <= i < w.len() ==> texts(w)[i] == w[i]@,
        opt_text(Some(s)) == Some(s@),
        opt_text(None) is None,
{
}

} // verus!
