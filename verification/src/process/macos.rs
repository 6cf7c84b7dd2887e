//! What macOS reports about a process.
use crate::path::{from_utf8_lossy, text_of_bytes};
use crate::text::{
    chars_of, has_prefix, lines, opt_text, split_lines, starts_with, string_of, texts,
};
use vstd::arithmetic::div_mod::*;
use vstd::prelude::*;
use vstd::string::*;

verus! {

/// Offset of `p_starttime`, a `struct timeval`, in a `kinfo_proc` on arm64.
pub const P_STARTTIME_OFFSET: usize = 136;

/// The report is shorter than the start time's place in it.
#[derive(Debug, Clone, Copy, PartialEq, Eq, Structural)]
pub struct KinfoTooSmall {
    pub size: usize,
}

/// The unsigned number in four bytes, least significant first.
pub open spec fn le_u32(b: Seq<u8>, at: int) -> int {
    b[at] + b[at + 1] * 0x100 + b[at + 2] * 0x1_0000 + b[at + 3] * 0x100_0000
}

/// The unsigned number in eight bytes, least significant first.
pub open spec fn le_u64(b: Seq<u8>, at: int) -> int {
    le_u32(b, at) + le_u32(b, at + 4) * 0x1_0000_0000
}

/// The signed number in eight bytes.
pub open spec fn le_i64(b: Seq<u8>, at: int) -> int {
    let n = le_u64(b, at);
    if n < 0x8000_0000_0000_0000 {
        n
    } else {
        n - 0x1_0000_0000_0000_0000
    }
}

/// The signed number in four bytes.
pub open spec fn le_i32(b: Seq<u8>, at: int) -> int {
    let n = le_u32(b, at);
    if n < 0x8000_0000 {
        n
    } else {
        n - 0x1_0000_0000
    }
}

/// The start time in a process report, seconds and microseconds as nanoseconds
/// modulo 2^64.
pub open spec fn kinfo_start_time(buf: Seq<u8>) -> u64 {
    ((le_i64(buf, P_STARTTIME_OFFSET as int) * 1_000_000_000 + le_i32(
        buf,
        P_STARTTIME_OFFSET + 8,
    ) * 1_000) % 0x1_0000_0000_0000_0000) as u64
}

fn read_u32(b: &[u8], at: usize) -> (r: u32)
    requires
        at + 4 <= b@.len(),
    ensures
        r == le_u32(b@, at as int),
{
    b[at] as u32 + b[at + 1] as u32 * 0x100 + b[at + 2] as u32 * 0x1_0000 + b[at + 3] as u32
        * 0x100_0000
}

/// Process start time from a `sysctl(KERN_PROC_PID)` report of `size` bytes at
/// the front of `buf`.
pub fn start_time(buf: &[u8], size: usize) -> (r: Result<u64, KinfoTooSmall>)
    requires
        buf@.len() >= P_STARTTIME_OFFSET + 12,
    ensures
        r == (if size < P_STARTTIME_OFFSET + 12 {
            Err(KinfoTooSmall { size })
        } else {
            Ok(kinfo_start_time(buf@))
        }),
{
    if size < P_STARTTIME_OFFSET + 12 {
        return Err(KinfoTooSmall { size });
    }
    let low: u32 = read_u32(buf, P_STARTTIME_OFFSET);
    let high: u32 = read_u32(buf, P_STARTTIME_OFFSET + 4);
    let sec: u64 = low as u64 + high as u64 * 0x1_0000_0000;
    let micro: u32 = read_u32(buf, P_STARTTIME_OFFSET + 8);
    let usec: u64 = if micro < 0x8000_0000 {
        micro as u64
    } else {
        micro as u64 + 0xffff_ffff_0000_0000
    };
    let nanos: u64 = sec.wrapping_mul(1_000_000_000).wrapping_add(usec.wrapping_mul(1_000));
    proof {
        let m: int = 0x1_0000_0000_0000_0000;
        let a: int = sec * 1_000_000_000;
        let b: int = usec * 1_000;
        let s = le_i64(buf@, P_STARTTIME_OFFSET as int);
        let u = le_i32(buf@, P_STARTTIME_OFFSET + 8);
        assert(nanos == (a % m + b % m) % m);
        lemma_add_mod_noop(a, b, m);
        let exact: int = s * 1_000_000_000 + u * 1_000;
        let ks: int = if s == sec { 0 } else { 1_000_000_000 };
        let ku: int = if u == usec { 0 } else { 1_000 };
        assert(a + b == m * (ks + ku) + exact);
        lemma_mod_multiples_vanish(ks + ku, exact, m);
    }
    Ok(nanos)
}

/// The rest of the first line of `text` that begins with `Identifier=`.
pub open spec fn first_identifier(text: Seq<Seq<char>>) -> Option<Seq<char>>
    decreases text.len(),
{
    if text.len() == 0 {
        None
    } else if starts_with(text[0], "Identifier="@) {
        Some(text[0].skip("Identifier="@.len() as int))
    } else {
        first_identifier(text.skip(1))
    }
}

/// Code signature identity from what `codesign` wrote to its standard error.
pub fn code_signature(stderr: &[u8]) -> (r: Option<String>)
    ensures
        opt_text(r) == first_identifier(lines(text_of_bytes(stderr@))),
{
    let text = from_utf8_lossy(stderr);
    let all = split_lines(&chars_of(text.as_str()));
    let ghost seq = texts(all@);
    let mut i: usize = 0;
    assert(seq.skip(0) =~= seq);
    proof {
        reveal_strlit("Identifier=");
    }
    while i < all.len()
        invariant
            i <= all@.len(),
            "Identifier="@.len() == 11,
            seq == texts(all@),
            seq == lines(text_of_bytes(stderr@)),
            first_identifier(seq) == first_identifier(seq.skip(i as int)),
        decreases all@.len() - i,
    {
        assert(seq.skip(i as int)[0] == all@[i as int]@);
        if has_prefix(&all[i], "Identifier=") {
            let id = string_of(&all[i], 11, all[i].len());
            assert(id@ =~= all@[i as int]@.skip(11));
            return Some(id);
        }
        assert(seq.skip(i as int).skip(1) =~= seq.skip(i + 1));
        i = i + 1;
    }
    None
}

/// The start time stands in twelve bytes of the report: eight for the seconds and
/// four for the microseconds, least significant first. Nothing else of the report
/// matters, and the time is their sum in nanoseconds as long as that fits.
pub proof fn law_the_start_time_is_seconds_and_microseconds(a: Seq<u8>, b: Seq<u8>)
    requires
        a.len() >= 148,
        b.len() >= 148,
    ensures
        a.subrange(136, 148) == b.subrange(136, 148) ==> kinfo_start_time(a) == kinfo_start_time(b),
        ({
            let secs = a[136] + a[137] * 0x100 + a[138] * 0x1_0000 + a[139] * 0x100_0000 + a[140]
                * 0x1_0000_0000 + a[141] * 0x100_0000_0000 + a[142] * 0x1_0000_0000_0000 + a[143]
                * 0x100_0000_0000_0000;
            let micros = a[144] + a[145] * 0x100 + a[146] * 0x1_0000 + a[147] * 0x100_0000;
            a[143] < 0x80 && a[147] < 0x80 && secs * 1_000_000_000 + micros * 1_000 <= u64::MAX
                ==> kinfo_start_time(a) == secs * 1_000_000_000 + micros * 1_000
        }),
{
    if a.subrange(136, 148) == b.subrange(136, 148) {
        assert forall|i: int| 136 <= i < 148 implies a[i] == b[i] by {
            assert(a.subrange(136, 148)[i - 136] == b.subrange(136, 148)[i - 136]);
        }
    }
}

/// Both numbers are signed, in two's complement: the highest bit takes off twice
/// its weight.
pub proof fn law_report_numbers_are_signed(b: Seq<u8>, at: int)
    requires
        0 <= at,
        at + 8 <= b.len(),
    ensures
        le_u32(b, at) == b[at] + 256 * b[at + 1] + 65_536 * b[at + 2] + 16_777_216 * b[at + 3],
        le_u64(b, at) == le_u32(b, at) + 4_294_967_296 * le_u32(b, at + 4),
        le_i32(b, at) == le_u32(b, at) - (if b[at + 3] >= 128 {
            4_294_967_296int
        } else {
            0
        }),
        le_i64(b, at) == le_u64(b, at) - (if b[at + 7] >= 128 {
            18_446_744_073_709_551_616int
        } else {
            0
        }),
        kinfo_start_time(b) == (le_i64(b, 136) * 1_000_000_000 + le_i32(b, 144) * 1_000)
            % 18_446_744_073_709_551_616,
{
}

/// The identity is what follows `Identifier=` in the first line that begins with
/// it.
pub proof fn law_the_first_identifier_counts(
    identity: Seq<char>,
    line: Seq<char>,
    rest: Seq<Seq<char>>,
)
    ensures
        first_identifier(Seq::empty()) is None,
        first_identifier(seq!["Identifier="@ + identity] + rest) == Some(identity),
        !"Identifier="@.is_prefix_of(line) ==> first_identifier(seq![line] + rest)
            == first_identifier(rest),
{
    let mark = "Identifier="@;
    let first = seq![mark + identity] + rest;
    assert(first[0] == mark + identity);
    assert(mark.is_prefix_of(mark + identity));
    assert((mark + identity).skip(mark.len() as int) =~= identity);
    assert((seq![line] + rest)[0] == line);
    assert((seq![line] + rest).skip(1) =~= rest);
}

} // verus!
