//! Where in a file the sample lies.
use crate::text::{clock, decimal, digit_char, lemma_clock_layout, two_digits};
use vstd::prelude::*;

verus! {

/// Length of the sample that is sent to the service, in milliseconds.
pub const SAMPLE_DURATION_MS: u64 = 4_000;

/// Where in the file the sample is drawn from.
#[derive(Clone, Copy, Debug, PartialEq, Eq, Structural)]
pub enum SamplePosition {
    /// The sample is centered at this percentage of the file.
    Percent(u8),
    /// The sample starts this many milliseconds into the file.
    StartMs(u64),
}

impl Default for SamplePosition {
    /// The middle of the file.
    fn default() -> (res: SamplePosition)
        ensures
            res == SamplePosition::Percent(50),
    {
        SamplePosition::Percent(50)
    }
}

/// How long the sample is: the whole file where it is shorter than asked for.
pub open spec fn sample_len(total_ms: u64, sample_ms: u64) -> int {
    if sample_ms <= total_ms {
        sample_ms as int
    } else {
        total_ms as int
    }
}

/// `start` moved so that `0 <= start <= latest`.
pub open spec fn clamped(start: int, latest: int) -> int {
    if start < 0 {
        0
    } else if start > latest {
        latest
    } else {
        start
    }
}

/// The start that `position` asks for, before it is clamped to the file.
pub open spec fn wanted_start(total_ms: u64, sample_ms: u64, position: SamplePosition) -> int {
    match position {
        SamplePosition::Percent(p) => total_ms * p / 100 - sample_len(total_ms, sample_ms) / 2,
        SamplePosition::StartMs(ms) => ms as int,
    }
}

/// Where the sample at `position` starts.
pub open spec fn window_start(total_ms: u64, sample_ms: u64, position: SamplePosition) -> int {
    clamped(
        wanted_start(total_ms, sample_ms, position),
        total_ms - sample_len(total_ms, sample_ms),
    )
}

/// Where the sample at `position` ends.
pub open spec fn window_end(total_ms: u64, sample_ms: u64, position: SamplePosition) -> int {
    window_start(total_ms, sample_ms, position) + sample_len(total_ms, sample_ms)
}

/// Start and end of the sample in the middle of a file, in milliseconds.
///
/// A file that is shorter than the sample is taken whole.
pub fn compute_sample_window(total_duration_ms: u64, sample_duration_ms: u64) -> (res: (u64, u64))
    ensures
        res.0 == total_duration_ms / 2 - sample_len(total_duration_ms, sample_duration_ms) / 2,
        res.1 == res.0 + sample_len(total_duration_ms, sample_duration_ms),
        sample_duration_ms <= total_duration_ms ==> res.1 - res.0 == sample_duration_ms,
        sample_duration_ms > total_duration_ms ==> res.0 == 0 && res.1 == total_duration_ms,
        res.1 <= total_duration_ms,
        -1 <= (total_duration_ms - res.1) - res.0 <= 1,
{
    let actual_sample: u64 = if sample_duration_ms <= total_duration_ms {
        sample_duration_ms
    } else {
        total_duration_ms
    };
    let half_total: u64 = total_duration_ms / 2;
    let half_sample: u64 = actual_sample / 2;
    let start: u64 = half_total.saturating_sub(half_sample);
    (start, start + actual_sample)
}

/// Start and end of the sample at `position`, in milliseconds.
///
/// A percentage is where the sample is centered, a start where it begins. The
/// sample is moved as far as needed to lie inside the file, and a file that is
/// shorter than the sample is taken whole.
pub fn compute_window_at(
    total_duration_ms: u64,
    sample_duration_ms: u64,
    position: SamplePosition,
) -> (res: (u64, u64))
    ensures
        res.0 == window_start(total_duration_ms, sample_duration_ms, position),
        res.1 == window_end(total_duration_ms, sample_duration_ms, position),
{
    let actual_sample: u64 = if sample_duration_ms <= total_duration_ms {
        sample_duration_ms
    } else {
        total_duration_ms
    };
    let latest: u64 = total_duration_ms - actual_sample;
    let start: u64 = match position {
        SamplePosition::Percent(p) => {
            assert(0 <= total_duration_ms * p <= 0xffff_ffff_ffff_ffff * 0xff) by (nonlinear_arith)
                requires
                    0 <= total_duration_ms <= 0xffff_ffff_ffff_ffff,
                    0 <= p <= 0xff,
            ;
            let center: u128 = total_duration_ms as u128 * p as u128 / 100;
            let half: u128 = (actual_sample / 2) as u128;
            if center <= half {
                0
            } else if center - half > latest as u128 {
                latest
            } else {
                (center - half) as u64
            }
        },
        SamplePosition::StartMs(ms) => if ms > latest {
            latest
        } else {
            ms
        },
    };
    (start, start + actual_sample)
}

/// The sample never extends past the end of the file, and it is as long as
/// asked for unless the whole file is shorter than that.
pub proof fn lemma_window_inside_file(total_ms: u64, sample_ms: u64, position: SamplePosition)
    ensures
        0 <= window_start(total_ms, sample_ms, position),
        window_start(total_ms, sample_ms, position) <= window_end(total_ms, sample_ms, position),
        window_end(total_ms, sample_ms, position) <= total_ms,
        sample_ms <= total_ms ==> window_end(total_ms, sample_ms, position) - window_start(
            total_ms,
            sample_ms,
            position,
        ) == sample_ms,
        sample_ms > total_ms ==> window_start(total_ms, sample_ms, position) == 0 && window_end(
            total_ms,
            sample_ms,
            position,
        ) == total_ms,
{
}

/// A start is kept wherever the sample that begins there still fits.
pub proof fn lemma_start_is_kept(total_ms: u64, sample_ms: u64, ms: u64)
    ensures
        ms + sample_ms <= total_ms ==> window_start(
            total_ms,
            sample_ms,
            SamplePosition::StartMs(ms),
        ) == ms,
        ms + sample_ms > total_ms && sample_ms <= total_ms ==> window_end(
            total_ms,
            sample_ms,
            SamplePosition::StartMs(ms),
        ) == total_ms,
{
}

/// A percentage is the center of the sample wherever the sample around it fits:
/// as much of the sample lies before that point as after it, give or take the
/// one millisecond of an odd length.
pub proof fn lemma_percentage_is_centered(total_ms: u64, sample_ms: u64, p: u8)
    requires
        sample_ms <= total_ms,
        sample_ms / 2 <= total_ms * p / 100,
        total_ms * p / 100 - sample_ms / 2 + sample_ms <= total_ms,
    ensures
        ({
            let center = total_ms * p / 100;
            let before = center - window_start(total_ms, sample_ms, SamplePosition::Percent(p));
            let after = window_end(total_ms, sample_ms, SamplePosition::Percent(p)) - center;
            before <= after <= before + 1
        }),
{
}

/// A later percentage never gives an earlier sample.
pub proof fn lemma_percentage_is_monotone(total_ms: u64, sample_ms: u64, p: u8, q: u8)
    requires
        p <= q,
    ensures
        window_start(total_ms, sample_ms, SamplePosition::Percent(p)) <= window_start(
            total_ms,
            sample_ms,
            SamplePosition::Percent(q),
        ),
{
    assert(total_ms * p <= total_ms * q) by (nonlinear_arith)
        requires
            0 <= total_ms,
            p <= q,
    ;
}

/// Half of the file is its middle: the sample at `50%` is the one that
/// `compute_sample_window` gives, and it leaves as much of the file before it
/// as after it, give or take a millisecond.
pub proof fn lemma_middle_is_half(total_ms: u64, sample_ms: u64)
    ensures
        ({
            let start = total_ms / 2 - sample_len(total_ms, sample_ms) / 2;
            let end = start + sample_len(total_ms, sample_ms);
            &&& window_start(total_ms, sample_ms, SamplePosition::Percent(50)) == start
            &&& window_end(total_ms, sample_ms, SamplePosition::Percent(50)) == end
            &&& 0 <= start <= end <= total_ms
            &&& -1 <= (total_ms - end) - start <= 1
        }),
{
    assert(total_ms * 50 / 100 == total_ms / 2);
}

/// Whether `c` is a decimal digit.
pub open spec fn is_digit(c: char) -> bool {
    '0' <= c && c <= '9'
}

/// The number that a run of decimal digits stands for.
pub open spec fn digits_value(s: Seq<char>) -> nat
    decreases s.len(),
{
    if s.len() == 0 {
        0
    } else {
        (digits_value(s.drop_last()) * 10 + (s.last() as int - '0' as int)) as nat
    }
}

/// The number that `s` stands for, if it is a decimal number.
pub open spec fn number(s: Seq<char>) -> Option<nat> {
    if s.len() > 0 && forall|i: int| 0 <= i < s.len() ==> is_digit(#[trigger] s[i]) {
        Some(digits_value(s))
    } else {
        None
    }
}

/// The position that `s` stands for: a whole percentage of at most a hundred
/// (`33%`), or minutes and two digits of seconds below sixty (`1:30`).
pub open spec fn position_of(s: Seq<char>) -> Option<SamplePosition> {
    let n = s.len() as int;
    if n > 0 && s[n - 1] == '%' {
        match number(s.take(n - 1)) {
            Some(p) if p <= 100 => Some(SamplePosition::Percent(p as u8)),
            _ => None,
        }
    } else if n > 3 && s[n - 3] == ':' {
        match (number(s.take(n - 3)), number(s.skip(n - 2))) {
            (Some(mins), Some(secs)) if secs < 60 && (mins * 60 + secs) * 1000 <= u64::MAX => Some(
                SamplePosition::StartMs(((mins * 60 + secs) * 1000) as u64),
            ),
            _ => None,
        }
    } else {
        None
    }
}

/// Reads the characters from `from` up to `to` as a decimal number.
fn read_number(chars: &Vec<char>, from: usize, to: usize) -> (res: Option<u64>)
    requires
        from <= to <= chars.len(),
    ensures
        match (res, number(chars@.subrange(from as int, to as int))) {
            (Some(v), Some(n)) => v == n,
            (Some(_), None) => false,
            (None, Some(n)) => n > u64::MAX,
            (None, None) => true,
        },
{
    if from == to {
        return None;
    }
    let ghost all = chars@.subrange(from as int, to as int);
    let mut value: u64 = 0;
    let mut i: usize = from;
    assert(all.take(0) =~= seq![]);
    let mut too_large: bool = false;
    while i < to
        invariant
            from <= i <= to <= chars.len(),
            all == chars@.subrange(from as int, to as int),
            forall|j: int| 0 <= j < i - from ==> is_digit(#[trigger] all[j]),
            !too_large ==> value == digits_value(all.take(i - from)),
            too_large ==> digits_value(all.take(i - from)) > u64::MAX,
        decreases to - i,
    {
        let c: char = chars[i];
        assert(all[i - from] == c);
        if c < '0' || c > '9' {
            return None;
        }
        let d: u64 = c as u64 - 48;
        assert(all.take(i - from + 1).drop_last() =~= all.take(i - from));
        if too_large || value > (u64::MAX - d) / 10 {
            too_large = true;
        } else {
            value = value * 10 + d;
        }
        i += 1;
    }
    assert(all.take(i - from) =~= all);
    if too_large {
        None
    } else {
        Some(value)
    }
}

impl SamplePosition {
    /// Reads a position such as `33%` or `1:30`.
    pub fn parse(s: &str) -> (res: Option<SamplePosition>)
        ensures
            res == position_of(s@),
    {
        let mut chars: Vec<char> = Vec::new();
        for c in it: s.chars()
            invariant
                it.seq() == s@,
                chars@ =~= s@.take(it.index()),
        {
            chars.push(c);
        }
        assert(chars@ =~= s@);
        let n: usize = chars.len();
        if n > 0 && chars[n - 1] == '%' {
            assert(s@.subrange(0, n - 1) =~= s@.take(n - 1));
            match read_number(&chars, 0, n - 1) {
                Some(p) if p <= 100 => Some(SamplePosition::Percent(p as u8)),
                _ => None,
            }
        } else if n > 3 && chars[n - 3] == ':' {
            assert(s@.subrange(0, n - 3) =~= s@.take(n - 3));
            assert(s@.subrange(n - 2, n as int) =~= s@.skip(n - 2));
            match (read_number(&chars, 0, n - 3), read_number(&chars, n - 2, n)) {
                (Some(mins), Some(secs)) => {
                    let ms: u128 = (mins as u128 * 60 + secs as u128) * 1000;
                    if secs < 60 && ms <= u64::MAX as u128 {
                        Some(SamplePosition::StartMs(ms as u64))
                    } else {
                        None
                    }
                },
                _ => None,
            }
        } else {
            None
        }
    }
}

/// A number is read back as what it was written for.
pub proof fn lemma_number_of_decimal(n: nat)
    ensures
        number(decimal(n)) == Some(n),
    decreases n,
{
    let s = decimal(n);
    if n >= 10 {
        lemma_number_of_decimal(n / 10);
        assert(s.drop_last() =~= decimal(n / 10));
        assert forall|i: int| 0 <= i < s.len() implies is_digit(#[trigger] s[i]) by {
            if i < s.len() - 1 {
                assert(s[i] == decimal(n / 10)[i]);
            }
        }
    } else {
        assert(s.drop_last() =~= seq![]);
        assert(digits_value(s.drop_last()) == 0);
    }
}

proof fn lemma_number_of_two_digits(n: nat)
    requires
        n < 100,
    ensures
        two_digits(n).len() == 2,
        number(two_digits(n)) == Some(n),
{
    let s = two_digits(n);
    reveal_with_fuel(decimal, 2);
    reveal_with_fuel(digits_value, 3);
    lemma_number_of_decimal(n);
    if n < 10 {
        assert(s =~= seq!['0', digit_char(n)]);
        assert(s.drop_last() =~= seq!['0']);
        assert(s.drop_last().drop_last() =~= seq![]);
    }
}

/// A whole percentage is read back as what it was written for.
pub proof fn lemma_percentage_reads_back(p: u8)
    requires
        p <= 100,
    ensures
        position_of(decimal(p as nat).push('%')) == Some(SamplePosition::Percent(p)),
{
    let s = decimal(p as nat).push('%');
    lemma_number_of_decimal(p as nat);
    assert(s.take(s.len() - 1) =~= decimal(p as nat));
}

/// A time is read back as what it was written for: the notation in which the
/// crate shows a time is the one in which it takes a position.
pub proof fn lemma_clock_reads_back(secs: nat)
    requires
        secs * 1000 <= u64::MAX,
    ensures
        position_of(clock(secs)) == Some(SamplePosition::StartMs((secs * 1000) as u64)),
{
    let s = clock(secs);
    let n = s.len() as int;
    lemma_number_of_decimal(secs / 60);
    lemma_number_of_two_digits(secs % 60);
    assert(s.take(n - 3) =~= decimal(secs / 60));
    assert(s.skip(n - 2) =~= two_digits(secs % 60));
    assert(is_digit(two_digits(secs % 60)[1]));
    assert(s[n - 1] == two_digits(secs % 60)[1]);
    assert(s[n - 3] == ':');
    assert((secs / 60) * 60 + secs % 60 == secs);
}

/// Different numbers are never written alike.
pub proof fn lemma_decimal_is_injective(a: nat, b: nat)
    requires
        decimal(a) == decimal(b),
    ensures
        a == b,
{
    lemma_number_of_decimal(a);
    lemma_number_of_decimal(b);
}

/// Different times are never written alike.
pub proof fn lemma_clock_is_injective(a: nat, b: nat)
    requires
        clock(a) == clock(b),
    ensures
        a == b,
{
    lemma_clock_layout(a);
    lemma_clock_layout(b);
    lemma_decimal_is_injective(a / 60, b / 60);
}

/// A text is a number if and only if it holds digits and nothing else, and one
/// more digit on the right makes it ten times as large and adds the digit.
pub proof fn lemma_number_grows(s: Seq<char>, c: char)
    ensures
        number(s) is Some <==> s.len() > 0 && forall|i: int|
            0 <= i < s.len() ==> 48 <= (#[trigger] s[i]) as int <= 57,
        48 <= c as int <= 57 ==> number(seq![c]) == Some((c as int - 48) as nat),
        number(s) is Some && 48 <= c as int <= 57 ==> number(s.push(c)) == Some(
            (number(s)->0 * 10 + (c as int - 48)) as nat,
        ),
{
    let one = seq![c];
    assert(one.drop_last() =~= seq![]);
    assert(digits_value(one.drop_last()) == 0);
    let more = s.push(c);
    assert(more.drop_last() =~= s);
    if number(s) is Some && 48 <= c as int <= 57 {
        assert forall|i: int| 0 <= i < more.len() implies is_digit(#[trigger] more[i]) by {
            if i < s.len() {
                assert(more[i] == s[i]);
            }
        }
    }
    assert(forall|i: int| 0 <= i < s.len() ==> (is_digit(#[trigger] s[i]) <==> 48 <= s[i] as int
        <= 57));
}

/// A text that ends in a percent sign is a percentage if and only if a number of
/// at most a hundred stands before it.
pub proof fn lemma_which_percentages_are_read(s: Seq<char>)
    ensures
        position_of(s.push('%')) == match number(s) {
            Some(p) => if p <= 100 {
                Some(SamplePosition::Percent(p as u8))
            } else {
                None
            },
            None => None,
        },
{
    let all = s.push('%');
    assert(all.take(all.len() - 1) =~= s);
}

/// A text of minutes, a colon and two characters is a start if and only if the
/// minutes are a number, the two characters are one below sixty, and the time in
/// milliseconds is not too large.
pub proof fn lemma_which_times_are_read(mins: Seq<char>, a: char, b: char)
    requires
        b != '%',
    ensures
        position_of(mins.push(':').push(a).push(b)) == match number(mins) {
            Some(m) => {
                let secs = (a as int - 48) * 10 + (b as int - 48);
                let ms = (m * 60 + secs) * 1000;
                if 48 <= a as int <= 53 && 48 <= b as int <= 57 && ms <= 0xffff_ffff_ffff_ffff {
                    Some(SamplePosition::StartMs(ms as u64))
                } else {
                    None
                }
            },
            None => None,
        },
{
    let all = mins.push(':').push(a).push(b);
    let n = all.len() as int;
    let tail = seq![a, b];
    assert(all.take(n - 3) =~= mins);
    assert(all.skip(n - 2) =~= tail);
    assert(tail.drop_last() =~= seq![a]);
    assert(tail.drop_last().drop_last() =~= seq![]);
    reveal_with_fuel(digits_value, 3);
    if mins.len() > 0 {
        assert(n > 3 && all[n - 3] == ':');
        if number(tail) is Some {
            assert(is_digit(tail[0]) && is_digit(tail[1]));
        }
    }
}

/// No other text is a position.
pub proof fn lemma_nothing_else_is_read(s: Seq<char>)
    requires
        s.len() == 0 || s.last() != '%',
        s.len() < 4 || s[s.len() - 3] != ':',
    ensures
        position_of(s) is None,
{
}

/// Where the sample around a percentage would reach past an end of the file, it
/// lies at that end.
pub proof fn lemma_percentage_at_the_ends(total_ms: u64, sample_ms: u64, p: u8)
    requires
        sample_ms <= total_ms,
    ensures
        total_ms * p / 100 < sample_ms / 2 ==> window_start(
            total_ms,
            sample_ms,
            SamplePosition::Percent(p),
        ) == 0,
        total_ms * p / 100 - sample_ms / 2 + sample_ms > total_ms ==> window_end(
            total_ms,
            sample_ms,
            SamplePosition::Percent(p),
        ) == total_ms,
{
}

/// The sample is four seconds long in every file that is, wherever it is drawn
/// from.
pub proof fn lemma_sample_is_four_seconds(total_ms: u64, position: SamplePosition)
    ensures
        total_ms >= 4_000 ==> window_end(total_ms, SAMPLE_DURATION_MS, position) - window_start(
            total_ms,
            SAMPLE_DURATION_MS,
            position,
        ) == 4_000,
        total_ms < 4_000 ==> window_start(total_ms, SAMPLE_DURATION_MS, position) == 0
            && window_end(total_ms, SAMPLE_DURATION_MS, position) == total_ms,
{
}

} // verus!
