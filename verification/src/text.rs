//! Text helpers: lines, words, numbers and equality over `char` sequences.

use vstd::prelude::*;

verus! {

/// `String::push` appends the character to the end of the string.
pub assume_specification[ String::push ](s: &mut String, c: char)
    ensures
        final(s)@ == old(s)@.push(c),
;

/// `String::pop` removes the last character and hands it back, or hands back
/// `None` and leaves the string alone when it is empty.
pub assume_specification[ String::pop ](s: &mut String) -> (c: Option<char>)
    ensures
        old(s)@.len() == 0 ==> c is None && final(s)@ == old(s)@,
        old(s)@.len() > 0 ==> c == Some(old(s)@.last()) && final(s)@ == old(s)@.drop_last(),
;

/// Whether the character has the Unicode property White_Space.
pub open spec fn white_space(c: char) -> bool {
    ||| '\u{9}' <= c <= '\u{d}'
    ||| c == ' '
    ||| c == '\u{85}'
    ||| c == '\u{a0}'
    ||| c == '\u{1680}'
    ||| '\u{2000}' <= c <= '\u{200a}'
    ||| c == '\u{2028}'
    ||| c == '\u{2029}'
    ||| c == '\u{202f}'
    ||| c == '\u{205f}'
    ||| c == '\u{3000}'
}

/// `char::is_whitespace` answers whether the character has the Unicode
/// property White_Space, whose characters [`white_space`] lists.
pub assume_specification[ char::is_whitespace ](c: char) -> (b: bool)
    ensures
        b == white_space(c),
;

/// The contents of a list of strings.
pub open spec fn texts(v: Seq<String>) -> Seq<Seq<char>> {
    v.map_values(|s: String| s@)
}

/// The contents of an optional string.
pub open spec fn opt_text(o: Option<String>) -> Option<Seq<char>> {
    match o {
        Some(s) => Some(s@),
        None => None,
    }
}

/// The index of the first element for which `p` holds, or the length.
pub open spec fn first_index<T>(s: Seq<T>, p: spec_fn(T) -> bool) -> int
    decreases s.len(),
{
    if s.len() == 0 {
        0
    } else {
        let i = first_index(s.drop_last(), p);
        if i < s.len() - 1 {
            i
        } else if p(s.last()) {
            s.len() - 1
        } else {
            s.len() as int
        }
    }
}

/// [`first_index`] is in range, holds a match when it is below the length,
/// and nothing before it matches.
pub proof fn lemma_first_index<T>(s: Seq<T>, p: spec_fn(T) -> bool)
    ensures
        0 <= first_index(s, p) <= s.len(),
        first_index(s, p) < s.len() ==> p(s[first_index(s, p)]),
        forall|i: int| 0 <= i < first_index(s, p) ==> !p(#[trigger] s[i]),
    decreases s.len(),
{
    if s.len() > 0 {
        let t = s.drop_last();
        lemma_first_index(t, p);
        assert forall|i: int| 0 <= i < first_index(s, p) implies !p(#[trigger] s[i]) by {
            if i < t.len() {
                assert(t[i] == s[i]);
            }
        }
        if first_index(t, p) < t.len() {
            assert(t[first_index(t, p)] == s[first_index(t, p)]);
        }
    }
}

/// The only index with a match and none before it is [`first_index`].
pub proof fn lemma_first_index_is<T>(s: Seq<T>, p: spec_fn(T) -> bool, i: int)
    requires
        0 <= i <= s.len(),
        i < s.len() ==> p(s[i]),
        forall|j: int| 0 <= j < i ==> !p(#[trigger] s[j]),
    ensures
        first_index(s, p) == i,
{
    lemma_first_index(s, p);
    let f = first_index(s, p);
    if f < i {
        assert(!p(s[f]));
    }
    if i < f {
        assert(!p(s[i]));
    }
}

/// The index of the first line feed at or after `from`, or the length.
pub open spec fn next_break(s: Seq<char>, from: int) -> int
    decreases s.len() - from,
{
    if from < 0 || from >= s.len() {
        s.len() as int
    } else if s[from] == '\n' {
        from
    } else {
        next_break(s, from + 1)
    }
}

/// The lines of `s` from index `from` on, cut at every line feed.
pub open spec fn lines_from(s: Seq<char>, from: int) -> Seq<Seq<char>>
    decreases s.len() - from, 1int,
{
    if from < 0 || from >= s.len() {
        seq![Seq::empty()]
    } else {
        let end = next_break(s, from);
        if from <= end < s.len() {
            seq![s.subrange(from, end)] + lines_from(s, end + 1)
        } else {
            seq![s.subrange(from, s.len() as int)]
        }
    }
}

/// The pieces between the line feeds of `s`; there is always at least one.
pub open spec fn split_lines(s: Seq<char>) -> Seq<Seq<char>> {
    lines_from(s, 0)
}

/// The first line of `s`, without its line ending (`\n` or `\r\n`).
pub open spec fn first_line(s: Seq<char>) -> Seq<char> {
    let end = next_break(s, 0);
    if 0 < end < s.len() && s[end - 1] == '\r' {
        s.take(end - 1)
    } else {
        s.take(end)
    }
}

/// The lines put together, with a line feed between each two.
pub open spec fn join_lines(lines: Seq<Seq<char>>) -> Seq<char>
    decreases lines.len(),
{
    if lines.len() == 0 {
        Seq::empty()
    } else if lines.len() == 1 {
        lines[0]
    } else {
        join_lines(lines.drop_last()).push('\n') + lines.last()
    }
}

/// Whether no line holds a line feed.
pub open spec fn all_feedless(lines: Seq<Seq<char>>) -> bool {
    forall|i: int| 0 <= i < lines.len() ==> !(#[trigger] lines[i]).contains('\n')
}

/// At most the first `n` characters of `s`.
pub open spec fn shortened(s: Seq<char>, n: nat) -> Seq<char> {
    if s.len() <= n {
        s
    } else {
        s.take(n as int)
    }
}

/// Whether `s` holds nothing but white space.
pub open spec fn blank(s: Seq<char>) -> bool {
    forall|i: int| 0 <= i < s.len() ==> white_space(#[trigger] s[i])
}

/// The index of the first character at or after `from` whose being white
/// space equals `space`, or the length.
pub open spec fn next_kind(s: Seq<char>, from: int, space: bool) -> int
    decreases s.len() - from,
{
    if from < 0 || from >= s.len() {
        s.len() as int
    } else if white_space(s[from]) == space {
        from
    } else {
        next_kind(s, from + 1, space)
    }
}

/// The maximal runs of characters that are not white space, from index
/// `from` on.
pub open spec fn words_from(s: Seq<char>, from: int) -> Seq<Seq<char>>
    decreases s.len() - from,
{
    let start = next_kind(s, from, false);
    let end = next_kind(s, start, true);
    if 0 <= from <= start < end <= s.len() {
        seq![s.subrange(start, end)] + words_from(s, end)
    } else {
        Seq::empty()
    }
}

/// The words of `s`: its maximal runs of characters that are not white space.
pub open spec fn split_words(s: Seq<char>) -> Seq<Seq<char>> {
    words_from(s, 0)
}

/// `s` without the white space at both ends.
pub open spec fn trimmed(s: Seq<char>) -> Seq<char> {
    let start = next_kind(s, 0, false);
    s.subrange(start, last_kind_end(s, start))
}

/// One past the last character that is not white space, or `low` when there
/// is none at or after `low`.
pub open spec fn last_kind_end(s: Seq<char>, low: int) -> int
    decreases s.len(),
{
    if s.len() <= low || s.len() == 0 {
        low
    } else if !white_space(s.last()) {
        s.len() as int
    } else {
        last_kind_end(s.drop_last(), low)
    }
}

/// The decimal digit for `d`.
pub open spec fn digit(d: nat) -> char {
    (('0' as nat) + d) as char
}

/// `n` in decimal, without leading zeros.
pub open spec fn decimal(n: nat) -> Seq<char>
    decreases n,
{
    if n < 10 {
        seq![digit(n)]
    } else {
        decimal(n / 10).push(digit(n % 10))
    }
}

/// The number that a run of decimal digits stands for.
pub open spec fn digits_value(s: Seq<char>) -> int
    decreases s.len(),
{
    if s.len() == 0 {
        0
    } else {
        digits_value(s.drop_last()) * 10 + (s.last() as int - '0' as int)
    }
}

/// Whether every character is one of `0` to `9`.
pub open spec fn all_digits(s: Seq<char>) -> bool {
    forall|i: int| 0 <= i < s.len() ==> '0' <= #[trigger] s[i] <= '9'
}

/// The 32-bit number that `s` writes in decimal: an optional sign, then at
/// least one digit, nothing else, and a value that fits.
pub open spec fn parsed_i32(s: Seq<char>) -> Option<i32> {
    let negative = s.len() > 0 && s[0] == '-';
    let signed = negative || (s.len() > 0 && s[0] == '+');
    let body = if signed {
        s.skip(1)
    } else {
        s
    };
    let value = if negative {
        -digits_value(body)
    } else {
        digits_value(body)
    };
    if body.len() > 0 && all_digits(body) && i32::MIN <= value <= i32::MAX {
        Some(value as i32)
    } else {
        None
    }
}

/// The characters of `s`, one by one.
pub fn chars_of(s: &str) -> (v: Vec<char>)
    ensures
        v@ == s@,
{
    let mut v: Vec<char> = Vec::new();
    let ghost whole = s@;
    for c in it: s.chars()
        invariant
            it.seq() == whole,
            v@ == whole.take(it.index()),
    {
        proof {
            assert(whole.take(it.index() + 1) =~= whole.take(it.index()).push(whole[it.index()]));
        }
        v.push(c);
    }
    assert(whole.take(whole.len() as int) =~= whole);
    v
}

/// The string that the characters `from..to` of `v` make up.
pub fn text_of(v: &Vec<char>, from: usize, to: usize) -> (s: String)
    requires
        from <= to <= v@.len(),
    ensures
        s@ == v@.subrange(from as int, to as int),
{
    let mut s = String::new();
    let mut i: usize = from;
    while i < to
        invariant
            from <= i <= to <= v@.len(),
            s@ == v@.subrange(from as int, i as int),
        decreases to - i,
    {
        s.push(v[i]);
        assert(v@.subrange(from as int, i + 1) =~= v@.subrange(from as int, i as int).push(
            v@[i as int],
        ));
        i = i + 1;
    }
    s
}

/// A copy of a list of strings.
pub fn clone_texts(v: &Vec<String>) -> (r: Vec<String>)
    ensures
        texts(r@) == texts(v@),
{
    let mut r: Vec<String> = Vec::new();
    let mut i: usize = 0;
    while i < v.len()
        invariant
            i <= v@.len(),
            r@.len() == i,
            forall|j: int| 0 <= j < i ==> (#[trigger] r@[j])@ == v@[j]@,
        decreases v.len() - i,
    {
        r.push(v[i].clone());
        i = i + 1;
    }
    assert(texts(r@) =~= texts(v@));
    r
}

/// Finds the first line feed at or after `from`.
fn find_break(v: &Vec<char>, from: usize) -> (i: usize)
    requires
        from <= v@.len(),
    ensures
        i == next_break(v@, from as int),
        from <= i <= v@.len(),
        i < v@.len() ==> v@[i as int] == '\n',
        forall|j: int| from <= j < i ==> v@[j] != '\n',
{
    let mut i: usize = from;
    while i < v.len() && v[i] != '\n'
        invariant
            from <= i <= v@.len(),
            next_break(v@, i as int) == next_break(v@, from as int),
            forall|j: int| from <= j < i ==> v@[j] != '\n',
        decreases v.len() - i,
    {
        i = i + 1;
    }
    i
}

/// [`next_break`] lies between `from` and the length.
pub proof fn lemma_next_break(s: Seq<char>, from: int)
    requires
        0 <= from <= s.len(),
    ensures
        from <= next_break(s, from) <= s.len(),
        next_break(s, from) < s.len() ==> s[next_break(s, from)] == '\n',
        forall|j: int| from <= j < next_break(s, from) ==> s[j] != '\n',
    decreases s.len() - from,
{
    if from < s.len() && s[from] != '\n' {
        lemma_next_break(s, from + 1);
    }
}

/// The first line of `s`, without its line ending.
pub fn first_line_of(s: &str) -> (line: String)
    ensures
        line@ == first_line(s@),
{
    let v = chars_of(s);
    let end = find_break(&v, 0);
    if 0 < end && end < v.len() && v[end - 1] == '\r' {
        text_of(&v, 0, end - 1)
    } else {
        text_of(&v, 0, end)
    }
}

/// At most the first `n` characters of `s`.
pub fn first_chars(s: &str, n: usize) -> (t: String)
    ensures
        t@ == shortened(s@, n as nat),
{
    let v = chars_of(s);
    let end = if v.len() <= n {
        v.len()
    } else {
        n
    };
    assert(s@.take(s@.len() as int) =~= s@);
    text_of(&v, 0, end)
}

/// The pieces between the line feeds of `s`.
pub fn lines_of(s: &str) -> (lines: Vec<String>)
    ensures
        texts(lines@) == split_lines(s@),
        lines@.len() > 0,
        all_feedless(texts(lines@)),
{
    proof {
        lemma_lines_feedless(s@, 0);
    }
    let v = chars_of(s);
    let mut lines: Vec<String> = Vec::new();
    let mut from: usize = 0;
    assert(texts(lines@) + lines_from(v@, 0) =~= split_lines(s@));
    loop
        invariant
            v@ == s@,
            from <= v@.len(),
            texts(lines@) + lines_from(v@, from as int) == split_lines(s@),
            all_feedless(split_lines(s@)),
        decreases v@.len() - from,
    {
        let end = find_break(&v, from);
        let piece = text_of(&v, from, end);
        let ghost before = lines@;
        lines.push(piece);
        assert(texts(lines@) =~= texts(before).push(piece@));
        if end >= v.len() {
            assert(from == v@.len() ==> piece@ =~= Seq::<char>::empty());
            assert(lines_from(v@, from as int) =~= seq![piece@]);
            assert(texts(lines@) =~= split_lines(s@));
            return lines;
        }
        assert(lines_from(v@, from as int) == seq![piece@] + lines_from(v@, end + 1));
        assert(texts(lines@) + lines_from(v@, end + 1) =~= split_lines(s@));
        from = end + 1;
    }
}

/// The lines put together, with a line feed between each two.
pub fn join_lines_of(lines: &Vec<String>) -> (s: String)
    ensures
        s@ == join_lines(texts(lines@)),
{
    let mut s = String::new();
    let mut i: usize = 0;
    while i < lines.len()
        invariant
            i <= lines@.len(),
            s@ == join_lines(texts(lines@).take(i as int)),
        decreases lines.len() - i,
    {
        if i > 0 {
            s.push('\n');
        }
        s.append(lines[i].as_str());
        proof {
            let t = texts(lines@);
            assert(t.take(i + 1).drop_last() =~= t.take(i as int));
            assert(t.take(i + 1).last() == lines@[i as int]@);
            if i == 0 {
                assert(s@ =~= lines@[0]@);
            }
        }
        i = i + 1;
    }
    assert(texts(lines@).take(lines@.len() as int) =~= texts(lines@));
    s
}

/// Whether `s` holds nothing but white space.
pub fn is_blank(s: &str) -> (b: bool)
    ensures
        b == blank(s@),
{
    let v = chars_of(s);
    let mut i: usize = 0;
    while i < v.len()
        invariant
            v@ == s@,
            i <= v@.len(),
            forall|j: int| 0 <= j < i ==> white_space(#[trigger] v@[j]),
        decreases v.len() - i,
    {
        if !v[i].is_whitespace() {
            assert(!white_space(s@[i as int]));
            return false;
        }
        i = i + 1;
    }
    true
}

fn find_kind(v: &Vec<char>, from: usize, space: bool) -> (i: usize)
    requires
        from <= v@.len(),
    ensures
        i == next_kind(v@, from as int, space),
        from <= i <= v@.len(),
        i < v@.len() ==> white_space(v@[i as int]) == space,
{
    let mut i: usize = from;
    while i < v.len() && v[i].is_whitespace() != space
        invariant
            from <= i <= v@.len(),
            next_kind(v@, i as int, space) == next_kind(v@, from as int, space),
        decreases v.len() - i,
    {
        i = i + 1;
    }
    i
}

/// The words of `s`: its maximal runs of characters that are not white space.
pub fn words_of(s: &str) -> (words: Vec<String>)
    ensures
        texts(words@) == split_words(s@),
{
    let v = chars_of(s);
    let mut words: Vec<String> = Vec::new();
    let mut from: usize = 0;
    assert(texts(words@) + words_from(v@, 0) =~= split_words(s@));
    loop
        invariant
            v@ == s@,
            from <= v@.len(),
            texts(words@) + words_from(v@, from as int) == split_words(s@),
        decreases v@.len() - from,
    {
        let start = find_kind(&v, from, false);
        let end = find_kind(&v, start, true);
        if start >= v.len() {
            assert(words_from(v@, from as int) =~= Seq::<Seq<char>>::empty());
            assert(texts(words@) =~= split_words(s@));
            return words;
        }
        assert(start < end);
        let word = text_of(&v, start, end);
        let ghost before = words@;
        words.push(word);
        assert(texts(words@) =~= texts(before).push(word@));
        assert(words_from(v@, from as int) == seq![word@] + words_from(v@, end as int));
        assert(texts(words@) + words_from(v@, end as int) =~= split_words(s@));
        from = end;
    }
}

/// `s` without the white space at both ends.
pub fn trim_of(s: &str) -> (t: String)
    ensures
        t@ == trimmed(s@),
{
    let v = chars_of(s);
    let start = find_kind(&v, 0, false);
    let mut end: usize = v.len();
    assert(v@.take(end as int) =~= v@);
    while end > start && v[end - 1].is_whitespace()
        invariant
            v@ == s@,
            start <= end <= v@.len(),
            last_kind_end(v@.take(end as int), start as int) == last_kind_end(v@, start as int),
        decreases end,
    {
        assert(v@.take(end as int).drop_last() =~= v@.take(end - 1));
        end = end - 1;
    }
    text_of(&v, start, end)
}

/// `n` in decimal.
pub fn decimal_of(n: u64) -> (s: String)
    ensures
        s@ == decimal(n as nat),
    decreases n,
{
    let mut s = if n < 10 {
        String::new()
    } else {
        decimal_of(n / 10)
    };
    let d: u8 = (n % 10) as u8;
    s.push((48 + d) as char);
    assert(s@ =~= decimal(n as nat));
    s
}

/// The 32-bit number that `s` writes in decimal.
pub fn parse_i32(s: &str) -> (r: Option<i32>)
    ensures
        r == parsed_i32(s@),
{
    let v = chars_of(s);
    let negative = v.len() > 0 && v[0] == '-';
    let signed = negative || (v.len() > 0 && v[0] == '+');
    let start: usize = if signed {
        1
    } else {
        0
    };
    let ghost body = if signed {
        s@.skip(1)
    } else {
        s@
    };
    let mut i: usize = start;
    let mut acc: i64 = 0;
    assert(body =~= s@.skip(start as int));
    assert(body.take(0) =~= Seq::<char>::empty());
    while i < v.len()
        invariant
            v@ == s@,
            start <= i <= v@.len(),
            negative == (s@.len() > 0 && s@[0] == '-'),
            signed == (negative || (s@.len() > 0 && s@[0] == '+')),
            start == (if signed {
                1int
            } else {
                0
            }),
            body == (if signed {
                s@.skip(1)
            } else {
                s@
            }),
            all_digits(body.take(i - start)),
            0 <= acc <= 0x8000_0001,
            acc <= 0x8000_0000 ==> acc == digits_value(body.take(i - start)),
            acc == 0x8000_0001 ==> digits_value(body.take(i - start)) > 0x8000_0000,
        decreases v.len() - i,
    {
        let c = v[i];
        assert(body[i - start] == c);
        if c < '0' || c > '9' {
            return None;
        }
        let d: i64 = (c as u32 - '0' as u32) as i64;
        proof {
            assert(body.take(i + 1 - start).drop_last() =~= body.take(i - start));
            assert(body.take(i + 1 - start).last() == c);
            assert forall|k: int| 0 <= k < i + 1 - start implies '0' <= #[trigger] body.take(
                i + 1 - start,
            )[k] <= '9' by {
                if k < i - start {
                    assert(body.take(i + 1 - start)[k] == body.take(i - start)[k]);
                }
            }
        }
        acc = acc * 10 + d;
        if acc > 0x8000_0000 {
            acc = 0x8000_0001;
        }
        i = i + 1;
    }
    assert(body.take(v@.len() - start) =~= body);
    if start >= v.len() || acc == 0x8000_0001 || (acc == 0x8000_0000 && !negative) {
        return None;
    }
    if negative {
        Some((0 - acc) as i32)
    } else {
        Some(acc as i32)
    }
}


/// Joining a line with those behind it.
proof fn lemma_join_first(line: Seq<char>, rest: Seq<Seq<char>>)
    requires
        rest.len() > 0,
    ensures
        join_lines(seq![line] + rest) == line.push('\n') + join_lines(rest),
    decreases rest.len(),
{
    let all = seq![line] + rest;
    assert(all.drop_last() =~= seq![line] + rest.drop_last());
    assert(all.last() == rest.last());
    if rest.len() == 1 {
        assert(all.drop_last() =~= seq![line]);
        assert(join_lines(seq![line]) == line);
        assert(join_lines(all) =~= line.push('\n') + join_lines(rest));
    } else {
        lemma_join_first(line, rest.drop_last());
        let inner = join_lines(rest.drop_last());
        assert(join_lines(rest) == inner.push('\n') + rest.last());
        assert(join_lines(all) == (line.push('\n') + inner).push('\n') + rest.last());
        assert(join_lines(all) =~= line.push('\n') + join_lines(rest));
    }
}

proof fn lemma_join_from(s: Seq<char>, from: int)
    requires
        0 <= from <= s.len(),
    ensures
        join_lines(lines_from(s, from)) == s.skip(from),
        lines_from(s, from).len() > 0,
    decreases s.len() - from,
{
    if from == s.len() {
        assert(join_lines(lines_from(s, from)) =~= s.skip(from));
    } else {
        lemma_next_break(s, from);
        let end = next_break(s, from);
        if end < s.len() {
            lemma_join_from(s, end + 1);
            lemma_join_first(s.subrange(from, end), lines_from(s, end + 1));
            assert(s.skip(from) =~= s.subrange(from, end).push('\n') + s.skip(end + 1));
        } else {
            assert(join_lines(lines_from(s, from)) =~= s.skip(from));
        }
    }
}

/// No line of a text holds a line feed.
pub proof fn lemma_lines_feedless(s: Seq<char>, from: int)
    requires
        0 <= from <= s.len(),
    ensures
        all_feedless(lines_from(s, from)),
    decreases s.len() - from,
{
    lemma_next_break(s, from);
    let end = next_break(s, from);
    let all = lines_from(s, from);
    if from < s.len() && end < s.len() {
        lemma_lines_feedless(s, end + 1);
        let rest = lines_from(s, end + 1);
        assert forall|i: int| 0 <= i < all.len() implies !(#[trigger] all[i]).contains('\n') by {
            if i > 0 {
                assert(all[i] == rest[i - 1]);
            }
        }
    }
}

/// Joining the lines of a text gives the text back.
pub proof fn join_undoes_split(s: Seq<char>)
    ensures
        join_lines(split_lines(s)) == s,
{
    lemma_join_from(s, 0);
    assert(s.skip(0) =~= s);
}

/// Looking for a line feed in the rest of a text.
proof fn lemma_break_in_rest(s: Seq<char>, k: int, i: int)
    requires
        0 <= k <= s.len(),
        0 <= i <= s.len() - k,
    ensures
        next_break(s, k + i) == k + next_break(s.skip(k), i),
    decreases s.len() - k - i,
{
    if k + i < s.len() {
        assert(s.skip(k)[i] == s[k + i]);
        if s[k + i] != '\n' {
            lemma_break_in_rest(s, k, i + 1);
        }
    }
}

/// The lines of the rest of a text.
proof fn lemma_lines_of_rest(s: Seq<char>, k: int, i: int)
    requires
        0 <= k <= s.len(),
        0 <= i <= s.len() - k,
    ensures
        lines_from(s, k + i) == lines_from(s.skip(k), i),
    decreases s.len() - k - i,
{
    if k + i < s.len() {
        let rest = s.skip(k);
        lemma_break_in_rest(s, k, i);
        lemma_next_break(s, k + i);
        let end = next_break(rest, i);
        if k + end < s.len() {
            lemma_lines_of_rest(s, k, end + 1);
            assert(s.subrange(k + i, k + end) =~= rest.subrange(i, end));
        } else {
            assert(s.subrange(k + i, s.len() as int) =~= rest.subrange(i, rest.len() as int));
        }
    }
}

/// The lines of what lines were joined to are those lines, if none of them
/// holds a line feed.
pub proof fn split_undoes_join(lines: Seq<Seq<char>>)
    requires
        lines.len() > 0,
        all_feedless(lines),
    ensures
        split_lines(join_lines(lines)) == lines,
    decreases lines.len(),
{
    let first = lines[0];
    let s = join_lines(lines);
    assert(!first.contains('\n'));
    if lines.len() == 1 {
        lemma_next_break(s, 0);
        assert(next_break(s, 0) == s.len());
        if s.len() == 0 {
            assert(first =~= Seq::<char>::empty());
        } else {
            assert(s.subrange(0, s.len() as int) =~= first);
        }
        assert(split_lines(s) =~= lines);
    } else {
        let rest = lines.drop_first();
        assert(lines =~= seq![first] + rest);
        lemma_join_first(first, rest);
        assert forall|i: int| 0 <= i < rest.len() implies !(#[trigger] rest[i]).contains('\n') by {
            assert(rest[i] == lines[i + 1]);
        }
        split_undoes_join(rest);
        let k = first.len() as int;
        assert(s.skip(k + 1) =~= join_lines(rest));
        lemma_lines_of_rest(s, k + 1, 0);
        lemma_next_break(s, 0);
        assert(s[k] == '\n');
        assert forall|i: int| 0 <= i < k implies s[i] != '\n' by {
            assert(s[i] == first[i]);
        }
        assert(next_break(s, 0) == k);
        assert(s.subrange(0, k) =~= first);
    }
}

proof fn lemma_split_at_feed(a: Seq<char>, b: Seq<char>, from: int)
    requires
        0 <= from <= a.len(),
    ensures
        lines_from(a.push('\n') + b, from) == lines_from(a, from) + split_lines(b),
    decreases a.len() - from,
{
    let s = a.push('\n') + b;
    lemma_next_break(a, from);
    lemma_next_break(s, from);
    let end = next_break(a, from);
    assert forall|j: int| 0 <= j < a.len() implies s[j] == a[j] by {}
    assert(s[a.len() as int] == '\n');
    if next_break(s, from) < end {
        assert(a[next_break(s, from)] == '\n');
    }
    assert(next_break(s, from) == end);
    assert(s.subrange(from, end) =~= a.subrange(from, end));
    if end < a.len() {
        lemma_split_at_feed(a, b, end + 1);
        assert(lines_from(s, from) =~= lines_from(a, from) + split_lines(b));
    } else {
        lemma_lines_of_rest(s, end + 1, 0);
        assert(s.skip(end + 1) =~= b);
        assert(from == a.len() ==> a.subrange(from, end) =~= Seq::<char>::empty());
        assert(lines_from(a, from) =~= seq![a.subrange(from, end)]);
    }
}

/// The lines of two texts with a line feed between them are those of the one
/// and then those of the other.
pub proof fn split_goes_by_feeds(a: Seq<char>, b: Seq<char>)
    ensures
        split_lines(a.push('\n') + b) == split_lines(a) + split_lines(b),
{
    lemma_split_at_feed(a, b, 0);
}

/// A number in decimal is made of digits that stand for it.
pub proof fn lemma_decimal(n: nat)
    ensures
        all_digits(decimal(n)),
        digits_value(decimal(n)) == n,
        decimal(n).len() > 0,
    decreases n,
{
    if n < 10 {
        reveal_with_fuel(digits_value, 2);
        assert(decimal(n).drop_last() =~= Seq::<char>::empty());
    } else {
        lemma_decimal(n / 10);
        let head = decimal(n / 10);
        let d = decimal(n);
        assert(d.drop_last() =~= head);
        assert forall|i: int| 0 <= i < d.len() implies '0' <= #[trigger] d[i] <= '9' by {
            if i < head.len() {
                assert(d[i] == head[i]);
            }
        }
    }
}

} // verus!
