//! Building blocks of the text that the crate prints.
use vstd::arithmetic::div_mod::lemma_div_denominator;
use vstd::arithmetic::power::{lemma_pow_positive, pow};
use vstd::prelude::*;

verus! {

/// The character that stands for the digit `d`.
pub open spec fn digit_char(d: nat) -> char {
    ('0' as int + d) as char
}

/// `n` in decimal notation, without leading zeros.
pub open spec fn decimal(n: nat) -> Seq<char>
    decreases n,
{
    if n < 10 {
        seq![digit_char(n)]
    } else {
        decimal(n / 10).push(digit_char(n % 10))
    }
}

/// `n` in decimal notation, filled up with zeros on the left to two digits.
pub open spec fn two_digits(n: nat) -> Seq<char> {
    if n < 10 {
        seq!['0'] + decimal(n)
    } else {
        decimal(n)
    }
}

/// A number of seconds as minutes and seconds, such as `3:07`.
pub open spec fn clock(secs: nat) -> Seq<char> {
    decimal(secs / 60) + seq![':'] + two_digits(secs % 60)
}

/// The items of `items` one after the other, each behind a copy of `sep`.
pub open spec fn each_after(items: Seq<Seq<char>>, sep: Seq<char>) -> Seq<char>
    decreases items.len(),
{
    if items.len() == 0 {
        seq![]
    } else {
        each_after(items.drop_last(), sep) + sep + items.last()
    }
}

/// The items of `items` one after the other, with `sep` between neighbours.
pub open spec fn joined(items: Seq<Seq<char>>, sep: Seq<char>) -> Seq<char> {
    if items.len() == 0 {
        seq![]
    } else {
        items.first() + each_after(items.drop_first(), sep)
    }
}

/// What stands in `s` before the first `stop`: all of `s` where there is none.
pub open spec fn before_first(s: Seq<char>, stop: char) -> Seq<char> {
    if s.contains(stop) {
        s.take(s.index_of_first(stop).unwrap())
    } else {
        s
    }
}

/// The texts of a vector of strings.
pub open spec fn texts(items: Seq<String>) -> Seq<Seq<char>> {
    items.map_values(|s: String| s@)
}

/// The texts of a vector of string slices.
pub open spec fn slice_texts(items: Seq<&str>) -> Seq<Seq<char>> {
    items.map_values(|s: &str| s@)
}

fn append_digit(out: &mut String, d: u64)
    requires
        d < 10,
    ensures
        final(out)@ == old(out)@.push(digit_char(d as nat)),
{
    let digit: &str = match d {
        0 => "0",
        1 => "1",
        2 => "2",
        3 => "3",
        4 => "4",
        5 => "5",
        6 => "6",
        7 => "7",
        8 => "8",
        _ => "9",
    };
    proof {
        reveal_strlit("0");
        reveal_strlit("1");
        reveal_strlit("2");
        reveal_strlit("3");
        reveal_strlit("4");
        reveal_strlit("5");
        reveal_strlit("6");
        reveal_strlit("7");
        reveal_strlit("8");
        reveal_strlit("9");
    }
    assert(digit@ =~= seq![digit_char(d as nat)]);
    out.append(digit);
    assert(out@ =~= old(out)@.push(digit_char(d as nat)));
}

/// Appends `n` in decimal notation to `out`.
pub fn append_decimal(out: &mut String, n: u64)
    ensures
        final(out)@ == old(out)@ + decimal(n as nat),
    decreases n,
{
    if n >= 10 {
        append_decimal(out, n / 10);
    }
    append_digit(out, n % 10);
    assert(out@ =~= old(out)@ + decimal(n as nat));
}

/// `n` in decimal notation.
pub fn decimal_text(n: u64) -> (res: String)
    ensures
        res@ == decimal(n as nat),
{
    let mut out = String::new();
    append_decimal(&mut out, n);
    assert(out@ =~= decimal(n as nat));
    out
}

/// Appends `secs` to `out` as minutes and seconds, such as `3:07`.
pub fn append_clock(out: &mut String, secs: u64)
    ensures
        final(out)@ == old(out)@ + clock(secs as nat),
{
    append_decimal(out, secs / 60);
    out.append(":");
    let rest: u64 = secs % 60;
    if rest < 10 {
        out.append("0");
    }
    append_decimal(out, rest);
    proof {
        reveal_strlit(":");
        reveal_strlit("0");
    }
    assert(":"@ =~= seq![':']);
    assert("0"@ =~= seq!['0']);
    assert(out@ =~= old(out)@ + clock(secs as nat));
}

proof fn lemma_joined_push(items: Seq<Seq<char>>, last: Seq<char>, sep: Seq<char>)
    ensures
        items.len() > 0 ==> joined(items.push(last), sep) == joined(items, sep) + sep + last,
        items.len() == 0 ==> joined(items.push(last), sep) == last,
{
    let all = items.push(last);
    if items.len() > 0 {
        assert(all.drop_first().drop_last() =~= items.drop_first());
        assert(all.first() == items.first());
        assert(joined(all, sep) =~= joined(items, sep) + sep + last);
    } else {
        assert(joined(all, sep) =~= last);
    }
}

/// Joins `items` with `sep` between neighbours.
pub fn join_slices(items: &Vec<&str>, sep: &str) -> (res: String)
    ensures
        res@ == joined(slice_texts(items@), sep@),
{
    let mut out = String::new();
    let mut i: usize = 0;
    assert(slice_texts(items@).take(0) =~= seq![]);
    while i < items.len()
        invariant
            i <= items.len(),
            out@ == joined(slice_texts(items@).take(i as int), sep@),
        decreases items.len() - i,
    {
        proof {
            let done = slice_texts(items@).take(i as int);
            lemma_joined_push(done, items@[i as int]@, sep@);
            assert(slice_texts(items@).take(i + 1) =~= done.push(items@[i as int]@));
        }
        if i > 0 {
            out.append(sep);
        }
        out.append(items[i]);
        i += 1;
        assert(out@ =~= joined(slice_texts(items@).take(i as int), sep@));
    }
    assert(slice_texts(items@).take(i as int) =~= slice_texts(items@));
    out
}

/// Joins `items` with `sep` between neighbours.
pub fn join_strings(items: &Vec<String>, sep: &str) -> (res: String)
    ensures
        res@ == joined(texts(items@), sep@),
{
    let mut slices: Vec<&str> = Vec::new();
    let mut i: usize = 0;
    while i < items.len()
        invariant
            i <= items.len(),
            slice_texts(slices@) =~= texts(items@).take(i as int),
        decreases items.len() - i,
    {
        let ghost before = slices@;
        slices.push(items[i].as_str());
        assert(slice_texts(slices@) =~= slice_texts(before).push(items@[i as int]@));
        assert(texts(items@).take(i + 1) =~= texts(items@).take(i as int).push(items@[i as int]@));
        i += 1;
    }
    assert(slice_texts(slices@) =~= texts(items@));
    join_slices(&slices, sep)
}

/// The part of `s` before its first `stop`, or all of `s` where there is none.
pub fn cut_at_first(s: &str, stop: char) -> (res: &str)
    ensures
        res@ == before_first(s@, stop),
{
    let len: usize = s.unicode_len();
    let mut i: usize = 0;
    for c in it: s.chars()
        invariant
            i == it.index(),
            it.seq() == s@,
            len == s@.len(),
            i <= len,
            forall|j: int| 0 <= j < i ==> s@[j] != stop,
    {
        if c == stop {
            proof {
                assert(s@[i as int] == stop);
                s@.index_of_first_ensures(stop);
            }
            return s.substring_char(0, i);
        }
        i += 1;
    }
    s
}

/// What is cut at the first `stop` holds none, is a beginning of the text, and
/// is all of it where the text holds none. Cutting again changes nothing.
pub proof fn lemma_cut_at_first(s: Seq<char>, stop: char)
    ensures
        !before_first(s, stop).contains(stop),
        before_first(s, stop).is_prefix_of(s),
        s.contains(stop) ==> s[before_first(s, stop).len() as int] == stop,
        !s.contains(stop) ==> before_first(s, stop) == s,
        before_first(before_first(s, stop), stop) == before_first(s, stop),
{
    s.index_of_first_ensures(stop);
}

/// A number has as many digits as it takes: `n` lies between the powers of ten
/// that bound the numbers of so many digits.
pub proof fn lemma_decimal_len(n: nat)
    ensures
        decimal(n).len() >= 1,
        n < pow(10, decimal(n).len()),
        n >= 10 ==> decimal(n).len() >= 2,
        n > 0 ==> pow(10, (decimal(n).len() - 1) as nat) <= n,
        n == 0 ==> decimal(n).len() == 1,
    decreases n,
{
    reveal(pow);
    let l = decimal(n).len();
    if n >= 10 {
        lemma_decimal_len(n / 10);
        let shorter = decimal(n / 10).len();
        assert(l == shorter + 1);
        assert(pow(10, l) == 10 * pow(10, shorter));
        assert(pow(10, shorter) == 10 * pow(10, (shorter - 1) as nat));
    } else {
        assert(pow(10, 1) == 10 * pow(10, 0));
    }
}

/// Each digit of a number is the one that its place calls for: counted from the
/// right, digit `k` is what is left of `n / 10^k` modulo ten.
pub proof fn lemma_decimal_digit(n: nat, k: nat)
    requires
        k < decimal(n).len(),
    ensures
        decimal(n)[decimal(n).len() - 1 - k] as int == 48 + n as int / pow(10, k) % 10,
    decreases n,
{
    reveal(pow);
    if k == 0 {
        assert(pow(10, k) == 1);
    } else {
        let m = (k - 1) as nat;
        assert(n >= 10);
        lemma_decimal_digit(n / 10, m);
        lemma_pow_positive(10, m);
        lemma_div_denominator(n as int, 10, pow(10, m));
        assert(pow(10, k) == 10 * pow(10, m));
    }
}

/// A time ends in a colon and two digits for the seconds below sixty. Before
/// the colon stand the minutes.
pub proof fn lemma_clock_layout(secs: nat)
    ensures
        ({
            let s = clock(secs);
            let n = s.len() as int;
            &&& n >= 4
            &&& s.take(n - 3) == decimal(secs / 60)
            &&& s[n - 3] == ':'
            &&& s[n - 2] as int == 48 + secs % 60 / 10
            &&& s[n - 1] as int == 48 + secs % 60 % 10
        }),
        forall|i: int|
            0 <= i < clock(secs).len() ==> '0' <= #[trigger] clock(secs)[i] && clock(secs)[i]
                <= ':',
{
    let s = clock(secs);
    let n = s.len() as int;
    let mins = decimal(secs / 60);
    let rest = two_digits(secs % 60);
    lemma_decimal_len(secs / 60);
    reveal_with_fuel(decimal, 2);
    assert(rest.len() == 2 && rest[0] as int == 48 + secs % 60 / 10 && rest[1] as int == 48 + secs
        % 60 % 10);
    assert(s.take(n - 3) =~= mins);
    assert(s[n - 3] == ':');
    assert(s[n - 2] == rest[0]);
    assert(s[n - 1] == rest[1]);
    assert forall|i: int| 0 <= i < n implies '0' <= #[trigger] s[i] && s[i] <= ':' by {
        if i < n - 3 {
            assert(s[i] == mins[i]);
            lemma_decimal_digit(secs / 60, (n - 4 - i) as nat);
        }
    }
}

proof fn lemma_each_after_concat(a: Seq<Seq<char>>, b: Seq<Seq<char>>, sep: Seq<char>)
    ensures
        each_after(a + b, sep) == each_after(a, sep) + each_after(b, sep),
    decreases b.len(),
{
    if b.len() == 0 {
        assert(a + b =~= a);
        assert(each_after(a + b, sep) =~= each_after(a, sep) + each_after(b, sep));
    } else {
        assert((a + b).drop_last() =~= a + b.drop_last());
        assert((a + b).last() == b.last());
        lemma_each_after_concat(a, b.drop_last(), sep);
        assert(each_after(a + b, sep) =~= each_after(a, sep) + each_after(b, sep));
    }
}

/// Nothing joined is nothing, one item joined is that item, and where a list is
/// split in two, the joined parts stand on both sides of one more separator.
pub proof fn lemma_joined_parts(
    a: Seq<Seq<char>>,
    b: Seq<Seq<char>>,
    item: Seq<char>,
    sep: Seq<char>,
)
    ensures
        joined(seq![], sep) == Seq::<char>::empty(),
        joined(seq![item], sep) == item,
        a.len() > 0 && b.len() > 0 ==> joined(a + b, sep) == joined(a, sep) + sep + joined(b, sep),
{
    let one = seq![item];
    assert(one.drop_first() =~= seq![]);
    assert(joined(one, sep) =~= item);
    if a.len() > 0 && b.len() > 0 {
        let first = seq![b.first()];
        assert((a + b).drop_first() =~= a.drop_first() + b);
        assert(b =~= first + b.drop_first());
        lemma_each_after_concat(a.drop_first(), b, sep);
        lemma_each_after_concat(first, b.drop_first(), sep);
        assert(first.drop_last() =~= seq![]);
        assert(each_after(first, sep) =~= sep + b.first());
        assert(joined(a + b, sep) =~= joined(a, sep) + sep + joined(b, sep));
    }
}

/// The texts of strings are theirs, one for one.
pub proof fn lemma_texts(items: Seq<String>, slices: Seq<&str>)
    ensures
        texts(items).len() == items.len(),
        forall|i: int| 0 <= i < items.len() ==> #[trigger] texts(items)[i] == items[i]@,
        slice_texts(slices).len() == slices.len(),
        forall|i: int| 0 <= i < slices.len() ==> #[trigger] slice_texts(slices)[i] == slices[i]@,
{
}

} // verus!
