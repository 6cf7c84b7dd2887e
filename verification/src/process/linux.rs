//! What `/proc` says about a process.
use crate::text::{
    chars_of, decimal, decimal_string, parse_decimal, parse_number, split_words, texts, words,
    copy_range,
};
use vstd::prelude::*;
use vstd::string::*;

verus! {

/// The link that names the binary of `pid`.
pub fn exe_link(pid: u32) -> (r: String)
    ensures
        r@ == "/proc/"@ + decimal(pid as nat) + "/exe"@,
{
    "/proc/".to_string().concat(decimal_string(pid as u64).as_str()).concat("/exe")
}

/// The file that holds the status of `pid`.
pub fn stat_file(pid: u32) -> (r: String)
    ensures
        r@ == "/proc/"@ + decimal(pid as nat) + "/stat"@,
{
    "/proc/".to_string().concat(decimal_string(pid as u64).as_str()).concat("/stat")
}

/// Position of the last `)` in a status line, or -1.
pub open spec fn last_paren(stat: Seq<char>) -> int
    decreases stat.len(),
{
    if stat.len() == 0 {
        -1
    } else if stat.last() == ')' {
        stat.len() - 1
    } else {
        last_paren(stat.drop_last())
    }
}

/// A status line whose command name, if it is closed at all, is followed by at
/// least one ASCII character.
pub open spec fn comm_is_followed(stat: Seq<char>) -> bool {
    let k = last_paren(stat);
    k >= 0 ==> k + 1 < stat.len() && stat[k + 1] <= '\u{7f}'
}

/// The fields after the command name: what follows the last `)` and one
/// separating character.
pub open spec fn fields_after_comm(stat: Seq<char>) -> Seq<Seq<char>> {
    words(stat.skip(last_paren(stat) + 2))
}

/// Index of the start time among the fields after the command name.
pub const STARTTIME_FIELD: usize = 19;

/// Why a start time could not be told.
#[derive(Debug, Clone, Copy, PartialEq, Eq, Structural)]
pub enum StartTimeError {
    /// The status line has no closing parenthesis.
    NoClosingParen,
    /// The status line has too few fields.
    MissingField,
    /// The start time is not a number.
    BadNumber,
    /// The system reported no positive clock tick rate.
    BadClock,
}

/// The start time in a status line, given the clock ticks per second:
/// nanoseconds since boot, modulo 2^64 before the division.
pub open spec fn stat_start_time(stat: Seq<char>, ticks_per_sec: i64) -> Result<
    u64,
    StartTimeError,
> {
    if last_paren(stat) < 0 {
        Err(StartTimeError::NoClosingParen)
    } else if fields_after_comm(stat).len() <= STARTTIME_FIELD {
        Err(StartTimeError::MissingField)
    } else {
        match parse_number(fields_after_comm(stat)[STARTTIME_FIELD as int], u64::MAX as nat) {
            None => Err(StartTimeError::BadNumber),
            Some(ticks) => if ticks_per_sec <= 0 {
                Err(StartTimeError::BadClock)
            } else {
                Ok(
                    (((ticks * 1_000_000_000) as int % 0x1_0000_0000_0000_0000) / (
                    ticks_per_sec as int)) as u64,
                )
            },
        }
    }
}

fn find_last_paren(v: &[char]) -> (r: Option<usize>)
    ensures
        match r {
            Some(k) => k < v@.len() && last_paren(v@) == k,
            None => last_paren(v@) < 0,
        },
{
    let mut n: usize = v.len();
    assert(v@.take(n as int) =~= v@);
    while n > 0
        invariant
            n <= v@.len(),
            last_paren(v@) == last_paren(v@.take(n as int)),
        decreases n,
    {
        assert(v@.take(n as int).last() == v@[n - 1]);
        assert(v@.take(n as int).drop_last() =~= v@.take(n - 1));
        if v[n - 1] == ')' {
            return Some(n - 1);
        }
        n = n - 1;
    }
    None
}

/// Whether [`start_time`] can read the status line.
pub fn readable_stat(stat: &str) -> (r: bool)
    ensures
        r == comm_is_followed(stat@),
{
    let v = chars_of(stat);
    match find_last_paren(&v) {
        Some(k) => k < v.len() - 1 && v[k + 1] <= '\u{7f}',
        None => true,
    }
}

/// The start time of a process, from its status line and the clock ticks per
/// second.
pub fn start_time(stat: &str, ticks_per_sec: i64) -> (r: Result<u64, StartTimeError>)
    requires
        comm_is_followed(stat@),
    ensures
        r == stat_start_time(stat@, ticks_per_sec),
{
    let v = chars_of(stat);
    let close: usize = match find_last_paren(&v) {
        Some(k) => k,
        None => return Err(StartTimeError::NoClosingParen),
    };
    let rest = copy_range(&v, close + 2, v.len());
    assert(rest@ =~= stat@.skip(close + 2));
    let fields = split_words(&rest);
    assert(texts(fields@).len() == fields@.len());
    if fields.len() <= STARTTIME_FIELD {
        return Err(StartTimeError::MissingField);
    }
    assert(texts(fields@)[STARTTIME_FIELD as int] == fields@[STARTTIME_FIELD as int]@);
    let ticks: u64 = match parse_decimal(&fields[STARTTIME_FIELD], u64::MAX) {
        Some(t) => t,
        None => return Err(StartTimeError::BadNumber),
    };
    if ticks_per_sec <= 0 {
        return Err(StartTimeError::BadClock);
    }
    Ok(ticks.wrapping_mul(1_000_000_000) / (ticks_per_sec as u64))
}

/// Linux has no code signatures.
pub fn code_signature(_pid: u32) -> (r: Option<String>)
    ensures
        r is None,
{
    None
}

/// The command name of a status line ends at its last closing parenthesis,
/// whatever the name itself contains.
pub proof fn law_the_last_parenthesis_closes_the_name(head: Seq<char>, tail: Seq<char>)
    requires
        !tail.contains(')'),
    ensures
        last_paren(head + seq![')'] + tail) == head.len(),
        last_paren(tail) < 0,
    decreases tail.len(),
{
    let stat = head + seq![')'] + tail;
    if tail.len() > 0 {
        let rest = tail.drop_last();
        assert(tail.contains(tail.last()));
        assert(!rest.contains(')')) by {
            if rest.contains(')') {
                let i = choose|i: int| 0 <= i < rest.len() && rest[i] == ')';
                assert(tail[i] == ')');
            }
        }
        law_the_last_parenthesis_closes_the_name(head, rest);
        assert(stat.last() == tail.last());
        assert(stat.drop_last() =~= head + seq![')'] + rest);
    }
}

/// The start time is read from the twentieth field behind the command name, in
/// clock ticks: as nanoseconds, rounded down. A line without a closing
/// parenthesis, with too few fields, or with something else in that field gives
/// an error that says so, and so does a clock that does not tick.
pub proof fn law_the_start_time_is_the_twentieth_field(
    head: Seq<char>,
    sep: char,
    tail: Seq<char>,
    ticks_per_sec: i64,
)
    requires
        sep != ')',
        !tail.contains(')'),
    ensures
        ({
            let time = stat_start_time(head + seq![')', sep] + tail, ticks_per_sec);
            let fields = words(tail);
            let ticks = parse_number(fields[19], u64::MAX as nat);
            &&& stat_start_time(tail, ticks_per_sec) == Err::<u64, StartTimeError>(
                StartTimeError::NoClosingParen,
            )
            &&& fields.len() < 20 ==> time == Err::<u64, StartTimeError>(
                StartTimeError::MissingField,
            )
            &&& fields.len() >= 20 && ticks is None ==> time == Err::<u64, StartTimeError>(
                StartTimeError::BadNumber,
            )
            &&& fields.len() >= 20 && ticks is Some && ticks_per_sec <= 0 ==> time == Err::<
                u64,
                StartTimeError,
            >(StartTimeError::BadClock)
            &&& fields.len() >= 20 && ticks is Some && ticks_per_sec > 0 && ticks->0
                * 1_000_000_000 <= u64::MAX ==> {
                &&& time is Ok
                &&& time->Ok_0 * ticks_per_sec <= ticks->0 * 1_000_000_000
                &&& ticks->0 * 1_000_000_000 < (time->Ok_0 + 1) * ticks_per_sec
            }
        }),
{
    let after = seq![sep] + tail;
    let stat = head + seq![')', sep] + tail;
    assert(!after.contains(')')) by {
        if after.contains(')') {
            let i = choose|i: int| 0 <= i < after.len() && after[i] == ')';
            if i > 0 {
                assert(tail[i - 1] == ')');
            }
        }
    }
    law_the_last_parenthesis_closes_the_name(head, after);
    law_the_last_parenthesis_closes_the_name(head, tail);
    assert(stat =~= head + seq![')'] + after);
    assert(stat.skip(head.len() as int + 2) =~= tail);
    let fields = words(tail);
    let ticks = parse_number(fields[19], u64::MAX as nat);
    if fields.len() >= 20 && ticks is Some && ticks_per_sec > 0 && ticks->0 * 1_000_000_000
        <= u64::MAX {
        let n: int = ticks->0 as int * 1_000_000_000;
        let d: int = ticks_per_sec as int;
        vstd::arithmetic::div_mod::lemma_small_mod(n as nat, 0x1_0000_0000_0000_0000nat);
        vstd::arithmetic::div_mod::lemma_fundamental_div_mod(n, d);
        vstd::arithmetic::div_mod::lemma_mod_bound(n, d);
        vstd::arithmetic::div_mod::lemma_div_is_ordered_by_denominator(n, 1, d);
        vstd::arithmetic::div_mod::lemma_div_pos_is_pos(n, d);
        vstd::arithmetic::div_mod::lemma_div_basics(n);
        let q: int = n / d;
        assert(0 <= q <= n);
        assert(d * q + n % d == n);
        assert(q * d == d * q) by (nonlinear_arith);
        assert((q + 1) * d == d * q + d) by (nonlinear_arith);
    }
}

/// Ticks wrap around at 64 bits when they are turned into nanoseconds, and the
/// time then depends on what is left alone.
pub proof fn law_nanoseconds_wrap_around(stat: Seq<char>, ticks_per_sec: i64)
    requires
        ticks_per_sec > 0,
        last_paren(stat) >= 0,
        words(stat.skip(last_paren(stat) + 2)).len() >= 20,
        parse_number(words(stat.skip(last_paren(stat) + 2))[19], u64::MAX as nat) is Some,
    ensures
        ({
            let ticks = parse_number(words(stat.skip(last_paren(stat) + 2))[19], u64::MAX as nat)->0;
            stat_start_time(stat, ticks_per_sec) == Ok::<u64, StartTimeError>(
                ((ticks * 1_000_000_000) as int % 0x1_0000_0000_0000_0000 / (ticks_per_sec as int))
                    as u64,
            )
        }),
{
}

/// A status line can be read if there is no command name in it, or an ASCII
/// character behind the name.
pub proof fn law_readable_lines_go_on_behind_the_name(head: Seq<char>, sep: char, tail: Seq<char>)
    requires
        sep != ')',
        !tail.contains(')'),
    ensures
        comm_is_followed(tail),
        !comm_is_followed(head.push(')')),
        comm_is_followed(head + seq![')', sep] + tail) == (sep <= '\u{7f}'),
{
    let after = seq![sep] + tail;
    let stat = head + seq![')', sep] + tail;
    assert(!after.contains(')')) by {
        if after.contains(')') {
            let i = choose|i: int| 0 <= i < after.len() && after[i] == ')';
            if i > 0 {
                assert(tail[i - 1] == ')');
            }
        }
    }
    law_the_last_parenthesis_closes_the_name(head, after);
    law_the_last_parenthesis_closes_the_name(head, tail);
    law_the_last_parenthesis_closes_the_name(head, Seq::empty());
    assert(head.push(')') =~= head + seq![')'] + Seq::<char>::empty());
    assert(stat =~= head + seq![')'] + after);
    assert(stat[head.len() as int + 1] == sep);
}

} // verus!
