//! What lines, words, numbers and the clock are made of.

use crate::clock::{hour_and_minute, two_digits};
use crate::text::{
    all_digits, decimal, digit, digits_value, first_line, join_lines, last_kind_end, lemma_decimal,
    lemma_next_break, next_break, next_kind, parsed_i32, shortened, split_words, trimmed,
    white_space, words_from,
};
use crate::wrap::lemma_next_kind;
use vstd::prelude::*;

verus! {

// ---- Lines ----

/// The first line is the start of the text up to its first line feed, or all of
/// it, without a carriage return before the line feed.
pub proof fn first_line_ends_at_the_first_feed(s: Seq<char>)
    ensures
        ({
            let l = first_line(s);
            let n = l.len() as int;
            &&& l.len() <= s.len()
            &&& l == s.take(n)
            &&& !l.contains('\n')
            &&& n < s.len() ==> s[n] == '\n' || (s[n] == '\r' && n + 1 < s.len() && s[n + 1]
                == '\n')
            &&& n < s.len() && s[n] == '\n' && n > 0 ==> s[n - 1] != '\r'
        }),
{
    lemma_next_break(s, 0);
    let end = next_break(s, 0);
    let l = first_line(s);
    assert forall|i: int| 0 <= i < l.len() implies l[i] != '\n' by {
        assert(l[i] == s[i]);
        assert(i < end);
    }
}

/// A text of at most `n` characters stays, and of a longer one the first `n` are
/// left.
pub proof fn shortening_keeps_the_start(s: Seq<char>, n: nat)
    ensures
        s.len() <= n ==> shortened(s, n) == s,
        s.len() > n ==> shortened(s, n) == s.take(n as int),
{
}

/// One line is joined to itself, and another one goes behind a line feed.
pub proof fn joining_puts_feeds_between(lines: Seq<Seq<char>>, line: Seq<char>)
    ensures
        join_lines(seq![line]) == line,
        lines.len() > 0 ==> join_lines(lines.push(line)) == join_lines(lines) + seq!['\n'] + line,
{
    if lines.len() > 0 {
        assert(lines.push(line).drop_last() =~= lines);
        assert(join_lines(lines).push('\n') =~= join_lines(lines) + seq!['\n']);
    }
}

// ---- Words ----

/// Whether the characters from `i` up to `j` are a word: no white space, and
/// nothing but white space or an end on either side.
pub open spec fn is_word_at(s: Seq<char>, i: int, j: int) -> bool {
    &&& 0 <= i < j <= s.len()
    &&& forall|k: int| i <= k < j ==> !white_space(#[trigger] s[k])
    &&& i > 0 ==> white_space(s[i - 1])
    &&& j < s.len() ==> white_space(s[j])
}

proof fn lemma_words_are_runs(s: Seq<char>, from: int, k: int) -> (run: (int, int))
    requires
        0 <= from <= s.len(),
        from > 0 && from < s.len() ==> white_space(s[from]),
        0 <= k < words_from(s, from).len(),
    ensures
        is_word_at(s, run.0, run.1),
        from <= run.0,
        words_from(s, from)[k] == s.subrange(run.0, run.1),
    decreases s.len() - from,
{
    let start = next_kind(s, from, false);
    lemma_next_kind(s, from, false);
    lemma_next_kind(s, start, true);
    let end = next_kind(s, start, true);
    if start < end {
        if k == 0 {
            if start > from {
                assert(white_space(s[start - 1]));
            }
            (start, end)
        } else {
            assert(words_from(s, from)[k] == words_from(s, end)[k - 1]);
            lemma_words_are_runs(s, end, k - 1)
        }
    } else {
        (0, 0)
    }
}

proof fn lemma_runs_are_words(s: Seq<char>, from: int, i: int, j: int)
    requires
        0 <= from <= i,
        from > 0 && from < s.len() ==> white_space(s[from]),
        is_word_at(s, i, j),
    ensures
        words_from(s, from).contains(s.subrange(i, j)),
    decreases s.len() - from,
{
    let start = next_kind(s, from, false);
    lemma_next_kind(s, from, false);
    lemma_next_kind(s, start, true);
    let end = next_kind(s, start, true);
    assert(!white_space(s[i]));
    assert(start <= i);
    assert(start < end);
    let all = words_from(s, from);
    if start == i {
        if end < j {
            assert(white_space(s[end]));
        }
        if j < end {
            assert(!white_space(s[j]));
        }
        assert(all[0] == s.subrange(i, j));
    } else {
        if i < end {
            assert(!white_space(s[i - 1]));
        }
        assert(end <= i);
        lemma_runs_are_words(s, end, i, j);
        let rest = words_from(s, end);
        let k = choose|k: int| 0 <= k < rest.len() && rest[k] == s.subrange(i, j);
        assert(all[k + 1] == rest[k]);
    }
}

/// The words of a text are exactly its runs of characters that are not white
/// space.
pub proof fn words_are_runs_without_white_space(s: Seq<char>, k: int, i: int, j: int)
    ensures
        0 <= k < split_words(s).len() ==> exists|a: int, b: int|
            #[trigger] is_word_at(s, a, b) && split_words(s)[k] == s.subrange(a, b),
        is_word_at(s, i, j) ==> split_words(s).contains(s.subrange(i, j)),
{
    if 0 <= k < split_words(s).len() {
        let run = lemma_words_are_runs(s, 0, k);
        assert(is_word_at(s, run.0, run.1));
    }
    if is_word_at(s, i, j) {
        lemma_runs_are_words(s, 0, i, j);
    }
}

proof fn lemma_words_in_order(s: Seq<char>, from: int, k: int, l: int) -> (runs: (int, int, int, int))
    requires
        0 <= from <= s.len(),
        from > 0 && from < s.len() ==> white_space(s[from]),
        0 <= k < l < words_from(s, from).len(),
    ensures
        from <= runs.0 < runs.1 < runs.2 < runs.3 <= s.len(),
        words_from(s, from)[k] == s.subrange(runs.0, runs.1),
        words_from(s, from)[l] == s.subrange(runs.2, runs.3),
    decreases s.len() - from,
{
    let start = next_kind(s, from, false);
    lemma_next_kind(s, from, false);
    lemma_next_kind(s, start, true);
    let end = next_kind(s, start, true);
    if k == 0 {
        let run = lemma_words_are_runs(s, end, l - 1);
        assert(words_from(s, from)[l] == words_from(s, end)[l - 1]);
        if run.0 == end {
            assert(!white_space(s[end]));
        }
        (start, end, run.0, run.1)
    } else {
        assert(words_from(s, from)[k] == words_from(s, end)[k - 1]);
        assert(words_from(s, from)[l] == words_from(s, end)[l - 1]);
        lemma_words_in_order(s, end, k - 1, l - 1)
    }
}

/// The words of a text come in the order in which they stand in it.
pub proof fn words_are_in_order(s: Seq<char>, k: int, l: int)
    requires
        0 <= k < l < split_words(s).len(),
    ensures
        exists|a: int, b: int, c: int, d: int|
            0 <= a < b < c < d <= s.len() && split_words(s)[k] == #[trigger] s.subrange(a, b)
                && split_words(s)[l] == #[trigger] s.subrange(c, d),
{
    let r = lemma_words_in_order(s, 0, k, l);
    assert(split_words(s)[k] == s.subrange(r.0, r.1) && split_words(s)[l] == s.subrange(r.2, r.3));
}

proof fn lemma_last_kind_end(s: Seq<char>, low: int)
    requires
        0 <= low <= s.len(),
    ensures
        low <= last_kind_end(s, low) <= s.len(),
        last_kind_end(s, low) > low ==> !white_space(s[last_kind_end(s, low) - 1]),
        forall|i: int| last_kind_end(s, low) <= i < s.len() ==> white_space(#[trigger] s[i]),
    decreases s.len(),
{
    if s.len() > low && white_space(s.last()) {
        let t = s.drop_last();
        lemma_last_kind_end(t, low);
        assert forall|i: int| last_kind_end(s, low) <= i < s.len() implies white_space(
            #[trigger] s[i],
        ) by {
            if i < t.len() {
                assert(t[i] == s[i]);
            }
        }
    }
}

/// Trimming takes white space off both ends, all of it and nothing else.
pub proof fn trimming_takes_white_space_off(s: Seq<char>) -> (ends: (int, int))
    ensures
        0 <= ends.0 <= ends.1 <= s.len(),
        trimmed(s) == s.subrange(ends.0, ends.1),
        forall|i: int| 0 <= i < ends.0 ==> white_space(#[trigger] s[i]),
        forall|i: int| ends.1 <= i < s.len() ==> white_space(#[trigger] s[i]),
        trimmed(s).len() > 0 ==> !white_space(trimmed(s).first()) && !white_space(
            trimmed(s).last(),
        ),
{
    let start = next_kind(s, 0, false);
    lemma_next_kind(s, 0, false);
    lemma_last_kind_end(s, start);
    (start, last_kind_end(s, start))
}

// ---- Numbers ----

/// Digits count in tens, each for what it shows.
pub proof fn digits_count_in_tens(s: Seq<char>, d: nat)
    requires
        d < 10,
    ensures
        digits_value(Seq::empty()) == 0,
        digit(d) as int - '0' as int == d,
        digits_value(s.push(digit(d))) == 10 * digits_value(s) + d,
{
    assert(s.push(digit(d)).drop_last() =~= s);
}

/// A number is written without leading zeros, in as few digits as it takes.
pub proof fn numbers_have_no_leading_zeros(n: nat)
    ensures
        all_digits(decimal(n)),
        digits_value(decimal(n)) == n,
        n > 0 ==> decimal(n)[0] != '0',
        n == 0 ==> decimal(n) == seq!['0'],
        decimal(n).len() > 0,
    decreases n,
{
    lemma_decimal(n);
    if n >= 10 {
        numbers_have_no_leading_zeros(n / 10);
        lemma_decimal(n / 10);
        assert(decimal(n)[0] == decimal(n / 10)[0]);
    }
}

/// A number that fits is read as it is written, with or without its sign.
pub proof fn written_numbers_are_read(n: nat)
    ensures
        n <= i32::MAX ==> parsed_i32(decimal(n)) == Some(n as i32),
        n <= i32::MAX ==> parsed_i32(seq!['+'] + decimal(n)) == Some(n as i32),
        n <= i32::MAX + 1 ==> parsed_i32(seq!['-'] + decimal(n)) == Some((-n) as i32),
        n > i32::MAX ==> parsed_i32(decimal(n)) is None,
        n > i32::MAX + 1 ==> parsed_i32(seq!['-'] + decimal(n)) is None,
{
    numbers_have_no_leading_zeros(n);
    let d = decimal(n);
    assert('0' <= d[0] <= '9');
    assert((seq!['+'] + d).skip(1) =~= d);
    assert((seq!['-'] + d).skip(1) =~= d);
}

/// What holds anything but digits behind an optional sign is no number, nor is
/// a sign alone.
pub proof fn other_texts_are_no_numbers(s: Seq<char>, i: int)
    requires
        0 <= i < s.len(),
        !('0' <= s[i] <= '9'),
        i > 0 || s.len() == 1 || (s[0] != '-' && s[0] != '+'),
    ensures
        parsed_i32(s) is None,
        parsed_i32(Seq::empty()) is None,
{
    let signed = s[0] == '-' || s[0] == '+';
    if signed && s.len() > 1 {
        assert(s.skip(1)[i - 1] == s[i]);
    }
}

/// A number below 100 in two digits is read as itself.
proof fn lemma_two_digits(n: int)
    requires
        0 <= n < 100,
    ensures
        two_digits(n).len() == 2,
        all_digits(two_digits(n)),
        digits_value(two_digits(n)) == n,
{
    let (a, b) = ((n / 10) as nat, (n % 10) as nat);
    let none = Seq::<char>::empty();
    digits_count_in_tens(none, a);
    digits_count_in_tens(none.push(digit(a)), b);
    assert(two_digits(n) =~= none.push(digit(a)).push(digit(b)));
}

proof fn lemma_clock(secs: int)
    ensures
        0 <= secs % 86_400 / 3600 < 24,
        0 <= secs % 3600 / 60 < 60,
        secs % 86_400 / 60 == (secs % 86_400 / 3600) * 60 + secs % 3600 / 60,
        (secs + 86_400) % 86_400 == secs % 86_400,
        (secs + 86_400) % 3600 == secs % 3600,
{
    let x = secs % 86_400;
    let q = secs / 86_400;
    assert(secs == 86_400 * q + x);
    assert(secs % 3600 == x % 3600);
}

/// The time of day tells the minutes since midnight, in hours and minutes of
/// two digits each, and comes round after a day.
pub proof fn time_of_day_tells_the_minutes(secs: int)
    ensures
        ({
            let t = hour_and_minute(secs);
            &&& t.len() == 5
            &&& t[2] == ':'
            &&& all_digits(t.take(2)) && all_digits(t.skip(3))
            &&& digits_value(t.take(2)) * 60 + digits_value(t.skip(3)) == secs % 86_400 / 60
            &&& digits_value(t.skip(3)) < 60
            &&& hour_and_minute(secs + 86_400) == t
        }),
{
    lemma_clock(secs);
    let t = hour_and_minute(secs);
    let h = secs % 86_400 / 3600;
    let m = secs % 3600 / 60;
    lemma_two_digits(h);
    lemma_two_digits(m);
    assert(t.take(2) =~= two_digits(h));
    assert(t.skip(3) =~= two_digits(m));
}

} // verus!
