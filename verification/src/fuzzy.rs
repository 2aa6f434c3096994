//! A picker that narrows a list of rows while the user types.
//!
//! Feed characters with [`FuzzyPicker::push_char`] and
//! [`FuzzyPicker::pop_char`], move the highlight with
//! [`FuzzyPicker::move_cursor`], and read the chosen row with
//! [`FuzzyPicker::selected_source_index`].

use crate::score::{Units, UnitsView};
use crate::text::{first_index, lemma_first_index, lemma_first_index_is, texts};
use nucleo::{Config, Matcher, Utf32Str};
use vstd::prelude::*;
use vstd::utf8::encode_utf8;

verus! {

/// What a picker chooses from.
#[derive(Debug, Clone, Copy, PartialEq, Eq, Structural)]
pub enum FuzzyTarget {
    ChatList,
    Messages,
    GlobalSwitcher,
}

impl FuzzyTarget {
    /// The title of the picker's box.
    pub fn title(&self) -> (t: &'static str)
        ensures
            t@ == (match *self {
                FuzzyTarget::ChatList => " Search chats "@,
                FuzzyTarget::Messages => " Search messages "@,
                FuzzyTarget::GlobalSwitcher => " Switch to chat "@,
            }),
    {
        match self {
            FuzzyTarget::ChatList => " Search chats ",
            FuzzyTarget::Messages => " Search messages ",
            FuzzyTarget::GlobalSwitcher => " Switch to chat ",
        }
    }

    /// What stands before the query.
    pub open spec fn prompt_text(self) -> Seq<char> {
        match self {
            FuzzyTarget::ChatList => "chat> "@,
            FuzzyTarget::Messages => "msg> "@,
            FuzzyTarget::GlobalSwitcher => "> "@,
        }
    }

    /// What stands before the query.
    pub fn prompt(&self) -> (t: &'static str)
        ensures
            t@ == self.prompt_text(),
    {
        match self {
            FuzzyTarget::ChatList => "chat> ",
            FuzzyTarget::Messages => "msg> ",
            FuzzyTarget::GlobalSwitcher => "> ",
        }
    }
}

/// The scoring engine of the `nucleo` crate, with its scratch memory.
#[verifier::external_type_specification]
#[verifier::external_body]
pub struct ExMatcher(Matcher);

/// The score that `Matcher::fuzzy_match` gives `needle` in `haystack` under
/// the default configuration, or `None` where it finds no match.
pub uninterp spec fn fuzzy_score(haystack: Seq<char>, needle: Seq<char>) -> Option<u16>;

/// Whether `Utf32Str::new` takes a text byte by byte: every grapheme of it
/// starts with an ASCII character.
pub uninterp spec fn bytewise(text: Seq<char>) -> bool;

/// Whether `d` is the byte `c`, or its capital where `c` is a small letter.
pub open spec fn loosely(c: u8, d: u8) -> bool {
    c == d || (97 <= c <= 122 && d == c - 32)
}

/// Whether the bytes of `n` occur in `h` in their order, taken loosely.
pub open spec fn occurs_in(n: Seq<u8>, h: Seq<u8>) -> bool
    decreases h.len(),
{
    if n.len() == 0 {
        true
    } else if h.len() == 0 {
        false
    } else if loosely(n.last(), h.last()) {
        occurs_in(n.drop_last(), h.drop_last())
    } else {
        occurs_in(n, h.drop_last())
    }
}

/// Picks the bytes that `c` stands for, taken loosely.
pub open spec fn stood_for_by(c: u8) -> spec_fn(u8) -> bool {
    |d: u8| loosely(c, d)
}

/// The index of the last byte of `h` that `c` stands for, or -1.
pub open spec fn last_loose(c: u8, h: Seq<u8>) -> int
    decreases h.len(),
{
    if h.len() == 0 {
        -1
    } else if loosely(c, h.last()) {
        h.len() - 1
    } else {
        last_loose(c, h.drop_last())
    }
}

/// How many bytes of `h` lie between the first loose occurrence of the first
/// byte of `n` and the last one of its last byte, both counted.
pub open spec fn span(n: Seq<u8>, h: Seq<u8>) -> int {
    last_loose(n.last(), h) - first_index(h, stood_for_by(n.first())) + 1
}

/// The scratch memory, in bytes, that the exact search needs for such a span.
pub open spec fn scratch_size(span: int, needle: int) -> int {
    (2 * (span + needle) + 7) / 8 * 8 + (span + 1 - needle) * (needle + 8)
}

/// Whether the matcher gives the exact search up for a faster one, because the
/// span or the needle is too long for its scratch memory.
pub open spec fn falls_back(span: int, needle: int) -> bool {
    ||| span * needle > 102_400
    ||| span > 0xffff
    ||| needle > 2048
    ||| scratch_size(span, needle) > 133_120
}

/// Whether some byte is a capital letter of ASCII.
pub open spec fn has_capital(n: Seq<u8>) -> bool {
    exists|i: int| 0 <= i < n.len() && 65 <= #[trigger] n[i] <= 90
}

/// Whether `Matcher::fuzzy_match` runs into its own assertion: it takes both
/// texts byte by byte, finds the needle in the haystack with the needle's
/// capitals taken as they are, and then, in the exact search, cannot find it
/// again in the haystack in small letters.
pub open spec fn trips(haystack: Seq<char>, needle: Seq<char>) -> bool {
    let h = encode_utf8(haystack);
    let n = encode_utf8(needle);
    &&& bytewise(haystack)
    &&& bytewise(needle)
    &&& 2 <= n.len() < h.len()
    &&& has_capital(n)
    &&& occurs_in(n, h)
    &&& span(n, h) != n.len()
    &&& !falls_back(span(n, h), n.len() as int)
}

/// The longest needle whose score cannot exceed 65535: the first character
/// adds at most 36 to the score and every other one at most 26.
pub const MAX_NEEDLE: usize = 2520;

/// The longest haystack.
pub const MAX_HAYSTACK: u64 = 0xffff_ffff;

/// The text as `Utf32Str::new` takes it, byte by byte or by the first
/// characters of its graphemes, as `Utf32Str::chars` gives it out.
pub uninterp spec fn units(text: Seq<char>) -> Seq<char>;

/// The text as the matcher takes it.
pub open spec fn taken(text: Seq<char>) -> UnitsView {
    UnitsView { chars: units(text), bytewise: bytewise(text) }
}

/// Whether a text is not longer than `limit`, in bytes or as it is taken.
pub open spec fn is_short(text: Seq<char>, limit: int) -> bool {
    encode_utf8(text).len() <= limit || units(text).len() <= limit
}

/// Whether the matcher answers for these texts: the row is not too long, the
/// score fits, and they do not trip it.
pub open spec fn answers(haystack: Seq<char>, needle: Seq<char>) -> bool {
    &&& is_short(haystack, MAX_HAYSTACK as int)
    &&& is_short(needle, MAX_NEEDLE as int) || taken(haystack).score_fits(taken(needle))
    &&& !trips(haystack, needle)
}

/// `Matcher::new` with `Config::DEFAULT`: an engine with fresh scratch memory.
#[verifier::external_body]
fn new_matcher() -> (m: Matcher) {
    Matcher::new(Config::DEFAULT)
}

/// `Utf32Str::new`, asked by `Utf32Str::is_ascii` whether it kept the bytes of
/// the text, and given out by `Utf32Str::chars`. An ASCII text is kept byte by
/// byte, and comes out as it is.
#[verifier::external_body]
fn units_of(text: &str) -> (u: Units)
    ensures
        u.chars@ == units(text@),
        u.bytewise == bytewise(text@),
        (forall|i: int| 0 <= i < text@.len() ==> (#[trigger] text@[i] as u32) < 0x80)
            ==> u.bytewise && u.chars@ == text@,
{
    let mut buf: Vec<char> = Vec::new();
    let taken = Utf32Str::new(text, &mut buf);
    Units { chars: taken.chars().collect(), bytewise: taken.is_ascii() }
}

/// `Matcher::fuzzy_match` on two texts made ready by `Utf32Str::new`. The
/// score depends on the texts and the configuration alone, which is set to
/// `Config::DEFAULT`; the engine lends its scratch memory. It panics on a
/// haystack of more than 2^32-1 characters and on the texts of [`trips`], and
/// its 16-bit score overflows where [`UnitsView::score_fits`] fails; it cannot
/// on a needle of at most [`MAX_NEEDLE`] characters.
#[verifier::external_body]
fn fuzzy_match(matcher: &mut Matcher, haystack: &str, needle: &str) -> (score: Option<u16>)
    requires
        answers(haystack@, needle@),
    ensures
        score == fuzzy_score(haystack@, needle@),
{
    let mut h: Vec<char> = Vec::new();
    let mut n: Vec<char> = Vec::new();
    matcher.config = Config::DEFAULT;
    matcher.fuzzy_match(Utf32Str::new(haystack, &mut h), Utf32Str::new(needle, &mut n))
}

/// The score of a row: 0 for every row while nothing has been typed, else
/// what the matcher answers; a row on which it does not answer is no match.
pub open spec fn row_score(row: Seq<char>, query: Seq<char>) -> Option<u32> {
    if query.len() == 0 {
        Some(0)
    } else if answers(row, query) {
        match fuzzy_score(row, query) {
            Some(s) => Some(s as u32),
            None => None,
        }
    } else {
        None
    }
}

/// Whether row `a` (its index and score) is listed before row `b`: the better
/// score first, and the earlier row first among equals.
pub open spec fn listed_before(a: (usize, u32), b: (usize, u32)) -> bool {
    a.1 > b.1 || (a.1 == b.1 && a.0 < b.0)
}

/// Whether `r` lists exactly the rows that match, each with its score, in
/// order.
pub open spec fn is_ranking(
    r: Seq<(usize, u32)>,
    sources: Seq<Seq<char>>,
    query: Seq<char>,
) -> bool {
    &&& forall|k: int|
        0 <= k < r.len() ==> (#[trigger] r[k]).0 < sources.len() && row_score(
            sources[r[k].0 as int],
            query,
        ) == Some(r[k].1)
    &&& forall|i: int, j: int|
        0 <= i < j < r.len() ==> listed_before(#[trigger] r[i], #[trigger] r[j])
    &&& forall|i: int|
        0 <= i < sources.len() && row_score(#[trigger] sources[i], query) is Some
            ==> exists|k: int| 0 <= k < r.len() && (#[trigger] r[k]).0 == i
}

/// The rows that match, in the order in which they are listed.
pub open spec fn ranking(sources: Seq<Seq<char>>, query: Seq<char>) -> Seq<(usize, u32)> {
    choose|r: Seq<(usize, u32)>| is_ranking(r, sources, query)
}

/// There is only one ranking: the order of the rows leaves nothing open.
pub proof fn ranking_is_unique(
    a: Seq<(usize, u32)>,
    b: Seq<(usize, u32)>,
    sources: Seq<Seq<char>>,
    query: Seq<char>,
)
    requires
        is_ranking(a, sources, query),
        is_ranking(b, sources, query),
    ensures
        a == b,
{
    lemma_same_prefix(a, b, sources, query, 0);
}

/// The entry `a[k]` of one ranking stands somewhere in the other.
proof fn lemma_other_place(
    a: Seq<(usize, u32)>,
    b: Seq<(usize, u32)>,
    sources: Seq<Seq<char>>,
    query: Seq<char>,
    k: int,
) -> (j: int)
    requires
        is_ranking(a, sources, query),
        is_ranking(b, sources, query),
        0 <= k < a.len(),
    ensures
        0 <= j < b.len(),
        b[j] == a[k],
{
    let i = a[k].0 as int;
    assert(row_score(sources[i], query) is Some);
    let j = choose|j: int| 0 <= j < b.len() && (#[trigger] b[j]).0 == i;
    assert(b[j].1 == a[k].1);
    j
}

proof fn lemma_same_prefix(
    a: Seq<(usize, u32)>,
    b: Seq<(usize, u32)>,
    sources: Seq<Seq<char>>,
    query: Seq<char>,
    k: int,
)
    requires
        is_ranking(a, sources, query),
        is_ranking(b, sources, query),
        0 <= k <= a.len(),
        k <= b.len(),
        forall|i: int| 0 <= i < k ==> a[i] == b[i],
    ensures
        a == b,
    decreases a.len() - k,
{
    if k == a.len() && k == b.len() {
        assert(a =~= b);
    } else if k == a.len() {
        let j = lemma_other_place(b, a, sources, query, k);
        assert(listed_before(b[j], b[k]));
    } else {
        let j = lemma_other_place(a, b, sources, query, k);
        if j < k {
            assert(listed_before(a[j], a[k]));
        }
        let i = lemma_other_place(b, a, sources, query, k);
        if i < k {
            assert(listed_before(b[i], b[k]));
        }
        if a[k] != b[k] {
            assert(listed_before(b[k], b[j]));
            assert(listed_before(a[k], a[i]));
        }
        lemma_same_prefix(a, b, sources, query, k + 1);
    }
}


/// Whether `d` is the byte `c`, or its capital where `c` is a small letter.
fn is_loosely(c: u8, d: u8) -> (b: bool)
    ensures
        b == loosely(c, d),
{
    c == d || (97 <= c && c <= 122 && d == c - 32)
}

/// Whether the bytes of `n` occur in `h` in their order, taken loosely.
fn does_occur(n: &[u8], h: &[u8]) -> (b: bool)
    ensures
        b == occurs_in(n@, h@),
{
    let mut i: usize = h.len();
    let mut j: usize = n.len();
    assert(n@.take(j as int) =~= n@);
    assert(h@.take(i as int) =~= h@);
    while i > 0 && j > 0
        invariant
            i <= h@.len(),
            j <= n@.len(),
            occurs_in(n@.take(j as int), h@.take(i as int)) == occurs_in(n@, h@),
        decreases i,
    {
        assert(h@.take(i as int).drop_last() =~= h@.take(i - 1));
        assert(n@.take(j as int).drop_last() =~= n@.take(j - 1));
        if is_loosely(n[j - 1], h[i - 1]) {
            j = j - 1;
        }
        i = i - 1;
    }
    j == 0
}

/// How many bytes lie between the first loose occurrence of the first byte of
/// `n` and the last one of its last byte.
fn span_of(n: &[u8], h: &[u8]) -> (k: i128)
    requires
        n@.len() > 0,
    ensures
        k == span(n@, h@),
        -0x1_0000_0000_0000_0000 <= k <= 0x1_0000_0000_0000_0000,
{
    let mut first: usize = 0;
    while first < h.len() && !is_loosely(n[0], h[first])
        invariant
            n@.len() > 0,
            first <= h@.len(),
            forall|i: int| 0 <= i < first ==> !loosely(n@.first(), #[trigger] h@[i]),
        decreases h.len() - first,
    {
        first = first + 1;
    }
    proof {
        lemma_first_index_is(h@, stood_for_by(n@.first()), first as int);
    }
    let mut end: usize = h.len();
    assert(h@.take(end as int) =~= h@);
    while end > 0 && !is_loosely(n[n.len() - 1], h[end - 1])
        invariant
            n@.len() > 0,
            end <= h@.len(),
            last_loose(n@.last(), h@.take(end as int)) == last_loose(n@.last(), h@),
        decreases end,
    {
        assert(h@.take(end as int).drop_last() =~= h@.take(end - 1));
        end = end - 1;
    }
    assert(last_loose(n@.last(), h@.take(end as int)) == end - 1);
    end as i128 - first as i128
}

/// Whether the matcher gives the exact search up for a faster one.
fn does_fall_back(span: i128, needle: usize) -> (b: bool)
    requires
        -0x1_0000_0000_0000_0000 <= span <= 0x1_0000_0000_0000_0000,
    ensures
        b == falls_back(span as int, needle as int),
{
    if span > 0xffff || needle > 2048 {
        return true;
    }
    let n: i128 = needle as i128;
    assert(-0x1000_0000_0000_0000_0000 <= span * n <= 0x1000_0000_0000_0000_0000)
        by (nonlinear_arith)
        requires
            -0x1_0000_0000_0000_0000 <= span <= 0x1_0000_0000_0000_0000,
            0 <= n <= 2048,
    ;
    assert(-0x1000_0000_0000_0000_0000 <= (span + 1 - n) * (n + 8)
        <= 0x1000_0000_0000_0000_0000) by (nonlinear_arith)
        requires
            -0x1_0000_0000_0000_0000 <= span <= 0x1_0000_0000_0000_0000,
            0 <= n <= 2048,
    ;
    if span * n > 102_400 {
        return true;
    }
    let head: i128 = 2 * (span + n) + 7;
    if let Some(blocks) = head.checked_div_euclid(8) {
        blocks * 8 + (span + 1 - n) * (n + 8) > 133_120
    } else {
        false
    }
}

/// Whether some byte is a capital letter of ASCII.
fn any_capital(n: &[u8]) -> (b: bool)
    ensures
        b == has_capital(n@),
{
    let mut i: usize = 0;
    while i < n.len()
        invariant
            i <= n@.len(),
            forall|j: int| 0 <= j < i ==> !(65 <= #[trigger] n@[j] <= 90),
        decreases n.len() - i,
    {
        if 65 <= n[i] && n[i] <= 90 {
            return true;
        }
        i = i + 1;
    }
    false
}

/// Whether the matcher answers for these texts.
fn does_answer(haystack: &str, needle: &str) -> (b: bool)
    ensures
        b == answers(haystack@, needle@),
{
    let h = haystack.as_bytes();
    let n = needle.as_bytes();
    if h.len() > MAX_HAYSTACK as usize && units_of(haystack).chars.len() > MAX_HAYSTACK as usize {
        return false;
    }
    if n.len() > MAX_NEEDLE {
        let query = units_of(needle);
        if query.chars.len() > MAX_NEEDLE && !units_of(haystack).does_score_fit(&query) {
            return false;
        }
    }
    if n.len() < 2 || n.len() >= h.len() || !any_capital(n) || !does_occur(n, h) {
        return true;
    }
    let k = span_of(n, h);
    k == n.len() as i128 || does_fall_back(k, n.len()) || !units_of(haystack).bytewise
        || !units_of(needle).bytewise
}

/// A row that does not match leaves the ranking of the rows before it alone.
proof fn lemma_row_skipped(
    r: Seq<(usize, u32)>,
    sources: Seq<Seq<char>>,
    query: Seq<char>,
    n: int,
)
    requires
        0 <= n < sources.len(),
        is_ranking(r, sources.take(n), query),
        row_score(sources[n], query) is None,
    ensures
        is_ranking(r, sources.take(n + 1), query),
{
    let a = sources.take(n);
    let b = sources.take(n + 1);
    assert forall|k: int| 0 <= k < r.len() implies (#[trigger] r[k]).0 < b.len() && row_score(
        b[r[k].0 as int],
        query,
    ) == Some(r[k].1) by {
        assert(a[r[k].0 as int] == b[r[k].0 as int]);
    }
    assert forall|i: int|
        0 <= i < b.len() && row_score(#[trigger] b[i], query) is Some implies exists|k: int|
        0 <= k < r.len() && (#[trigger] r[k]).0 == i by {
        assert(i < n);
        assert(row_score(a[i], query) is Some);
    }
}

/// A row that matches goes behind the rows with at least its score and before
/// those with less.
proof fn lemma_row_placed(
    r: Seq<(usize, u32)>,
    sources: Seq<Seq<char>>,
    query: Seq<char>,
    n: int,
    score: u32,
    at: int,
)
    requires
        0 <= n < sources.len(),
        n <= usize::MAX,
        is_ranking(r, sources.take(n), query),
        row_score(sources[n], query) == Some(score),
        0 <= at <= r.len(),
        forall|k: int| 0 <= k < at ==> (#[trigger] r[k]).1 >= score,
        at < r.len() ==> r[at].1 < score,
    ensures
        is_ranking(r.insert(at, (n as usize, score)), sources.take(n + 1), query),
{
    let a = sources.take(n);
    let b = sources.take(n + 1);
    let t = r.insert(at, (n as usize, score));
    assert forall|k: int| 0 <= k < t.len() implies #[trigger] t[k] == (if k < at {
        r[k]
    } else if k == at {
        (n as usize, score)
    } else {
        r[k - 1]
    }) by {}
    assert forall|k: int| 0 <= k < t.len() implies (#[trigger] t[k]).0 < b.len() && row_score(
        b[t[k].0 as int],
        query,
    ) == Some(t[k].1) by {
        if k != at {
            let o = if k < at {
                k
            } else {
                k - 1
            };
            assert(t[k] == r[o]);
            assert(a[r[o].0 as int] == b[r[o].0 as int]);
        }
    }
    assert forall|i: int, j: int| 0 <= i < j < t.len() implies listed_before(
        #[trigger] t[i],
        #[trigger] t[j],
    ) by {
        if i == at {
            assert(t[j] == r[j - 1]);
            if j - 1 > at {
                assert(listed_before(r[at], r[j - 1]));
            }
        } else if j == at {
            assert(t[i] == r[i]);
        } else {
            let o = if i < at {
                i
            } else {
                i - 1
            };
            let p = if j < at {
                j
            } else {
                j - 1
            };
            assert(listed_before(r[o], r[p]));
        }
    }
    assert forall|i: int|
        0 <= i < b.len() && row_score(#[trigger] b[i], query) is Some implies exists|k: int|
        0 <= k < t.len() && (#[trigger] t[k]).0 == i by {
        if i == n {
            assert(t[at].0 == i);
        } else {
            assert(row_score(a[i], query) is Some);
            let k = choose|k: int| 0 <= k < r.len() && (#[trigger] r[k]).0 == i;
            let o = if k < at {
                k
            } else {
                k + 1
            };
            assert(t[o] == r[k]);
        }
    }
}

/// Picks the rows with less than a score.
spec fn scores_below(score: u32) -> spec_fn((usize, u32)) -> bool {
    |e: (usize, u32)| e.1 < score
}

/// Some list ranks the first `n` rows.
proof fn lemma_ranked(sources: Seq<Seq<char>>, query: Seq<char>, n: int) -> (r: Seq<(usize, u32)>)
    requires
        0 <= n <= sources.len() <= usize::MAX,
    ensures
        is_ranking(r, sources.take(n), query),
        r.len() <= n,
    decreases n,
{
    if n == 0 {
        let r = Seq::<(usize, u32)>::empty();
        assert(is_ranking(r, sources.take(0), query));
        r
    } else {
        let r = lemma_ranked(sources, query, n - 1);
        match row_score(sources[n - 1], query) {
            None => {
                lemma_row_skipped(r, sources, query, n - 1);
                r
            },
            Some(score) => {
                let at = first_index(r, scores_below(score));
                lemma_first_index(r, scores_below(score));
                lemma_row_placed(r, sources, query, n - 1, score, at);
                r.insert(at, ((n - 1) as usize, score))
            },
        }
    }
}

/// [`ranking`] is a ranking: every list of rows has one.
pub proof fn ranking_exists(sources: Seq<Seq<char>>, query: Seq<char>)
    requires
        sources.len() <= usize::MAX,
    ensures
        is_ranking(ranking(sources, query), sources, query),
{
    let r = lemma_ranked(sources, query, sources.len() as int);
    assert(sources.take(sources.len() as int) =~= sources);
}

/// While nothing has been typed, every row is listed, in its place.
pub proof fn ranking_of_nothing(sources: Seq<Seq<char>>)
    requires
        sources.len() <= usize::MAX,
    ensures
        ranking(sources, Seq::empty()) == Seq::new(
            sources.len(),
            |i: int| (i as usize, 0u32),
        ),
{
    let all = Seq::new(sources.len(), |i: int| (i as usize, 0u32));
    assert forall|i: int|
        0 <= i < sources.len() && row_score(
            #[trigger] sources[i],
            Seq::empty(),
        ) is Some implies exists|k: int| 0 <= k < all.len() && (#[trigger] all[k]).0 == i by {
        assert(all[i].0 == i);
    }
    assert(is_ranking(all, sources, Seq::empty()));
    ranking_exists(sources, Seq::empty());
    ranking_is_unique(ranking(sources, Seq::empty()), all, sources, Seq::empty());
}

/// Scores one row.
fn score_row(matcher: &mut Matcher, row: &str, query: &str) -> (score: Option<u32>)
    ensures
        score == row_score(row@, query@),
{
    if query.is_empty() {
        return Some(0);
    }
    if !does_answer(row, query) {
        return None;
    }
    match fuzzy_match(matcher, row, query) {
        Some(s) => Some(s as u32),
        None => None,
    }
}

/// Lists the rows that match, best first.
fn rank_rows(matcher: &mut Matcher, sources: &Vec<String>, query: &str) -> (r: Vec<(usize, u32)>)
    ensures
        r@ == ranking(texts(sources@), query@),
{
    let ghost t = texts(sources@);
    let mut r: Vec<(usize, u32)> = Vec::new();
    let mut i: usize = 0;
    assert(is_ranking(r@, t.take(0), query@));
    while i < sources.len()
        invariant
            t == texts(sources@),
            i <= sources@.len(),
            is_ranking(r@, t.take(i as int), query@),
        decreases sources.len() - i,
    {
        assert(t[i as int] == sources@[i as int]@);
        match score_row(matcher, sources[i].as_str(), query) {
            None => {
                proof {
                    lemma_row_skipped(r@, t, query@, i as int);
                }
            },
            Some(score) => {
                let mut at: usize = 0;
                while at < r.len() && r[at].1 >= score
                    invariant
                        at <= r@.len(),
                        forall|k: int| 0 <= k < at ==> (#[trigger] r@[k]).1 >= score,
                    decreases r.len() - at,
                {
                    at = at + 1;
                }
                proof {
                    lemma_row_placed(r@, t, query@, i as int, score, at as int);
                }
                r.insert(at, (i, score));
            },
        }
        i = i + 1;
    }
    proof {
        assert(t.take(t.len() as int) =~= t);
        ranking_exists(t, query@);
        ranking_is_unique(r@, ranking(t, query@), t, query@);
    }
    r
}

/// A list of rows, what has been typed, the rows that match it, and which of
/// these is highlighted.
#[derive(Debug)]
pub struct FuzzyPicker {
    target: FuzzyTarget,
    sources: Vec<String>,
    query: String,
    /// The index and the score of every row that matches, best first.
    ranked: Vec<(usize, u32)>,
    cursor: usize,
    matcher: Matcher,
}

/// The contents of a [`FuzzyPicker`].
#[verifier::ext_equal]
pub struct FuzzyView {
    pub target: FuzzyTarget,
    pub sources: Seq<Seq<char>>,
    pub query: Seq<char>,
    pub ranked: Seq<(usize, u32)>,
    pub cursor: usize,
}

impl FuzzyView {
    /// The picker with another query: the rows are ranked anew and the best
    /// one is highlighted.
    pub open spec fn searching(self, query: Seq<char>) -> FuzzyView {
        FuzzyView { query, ranked: ranking(self.sources, query), cursor: 0, ..self }
    }

    /// A new picker, in which nothing has been typed.
    pub open spec fn opened(target: FuzzyTarget, sources: Seq<Seq<char>>) -> FuzzyView {
        FuzzyView {
            target,
            sources,
            query: Seq::empty(),
            ranked: ranking(sources, Seq::empty()),
            cursor: 0,
        }
    }

    /// After `c` has been typed.
    pub open spec fn typed(self, c: char) -> FuzzyView {
        self.searching(self.query.push(c))
    }

    /// After the last character has been taken back.
    pub open spec fn erased(self) -> FuzzyView {
        self.searching(
            if self.query.len() == 0 {
                self.query
            } else {
                self.query.drop_last()
            },
        )
    }

    /// After the highlight has moved by `delta` rows, round the ends.
    pub open spec fn moved(self, delta: int) -> FuzzyView {
        FuzzyView {
            cursor: if self.ranked.len() == 0 {
                0
            } else {
                ((self.cursor + delta) % (self.ranked.len() as int)) as usize
            },
            ..self
        }
    }

    /// The row that is highlighted.
    pub open spec fn selected(self) -> Option<usize> {
        if self.cursor < self.ranked.len() {
            Some(self.ranked[self.cursor as int].0)
        } else {
            None
        }
    }

    /// The rows on show are those that match, and one of them is highlighted
    /// if there is any.
    pub open spec fn consistent(self) -> bool {
        &&& self.sources.len() <= usize::MAX
        &&& self.ranked == ranking(self.sources, self.query)
        &&& self.cursor == 0 || self.cursor < self.ranked.len()
    }
}

/// No more rows are listed than there are.
pub proof fn lemma_ranking_len(sources: Seq<Seq<char>>, query: Seq<char>)
    requires
        sources.len() <= usize::MAX,
    ensures
        ranking(sources, query).len() <= sources.len(),
{
    let r = lemma_ranked(sources, query, sources.len() as int);
    assert(sources.take(sources.len() as int) =~= sources);
    ranking_is_unique(ranking(sources, query), r, sources, query);
}

/// Typing, erasing and moving leave the picker consistent.
pub proof fn picker_stays_consistent(p: FuzzyView, delta: int)
    requires
        p.consistent(),
    ensures
        p.moved(delta).consistent(),
        forall|c: char| (#[trigger] p.typed(c)).consistent(),
        p.erased().consistent(),
{
    lemma_ranking_len(p.sources, p.query);
    if p.ranked.len() > 0 {
        vstd::arithmetic::div_mod::lemma_mod_bound(p.cursor + delta, p.ranked.len() as int);
    }
}

/// Erasing takes typing back: the query and the rows are as they were, with
/// the best row highlighted.
pub proof fn erasing_undoes_typing(p: FuzzyView, c: char)
    requires
        p.consistent(),
    ensures
        p.typed(c).erased() == (FuzzyView { cursor: 0, ..p }),
{
    assert(p.query.push(c).drop_last() =~= p.query);
}

/// Moving down and up again comes back to the same row.
pub proof fn moving_back_undoes_moving(p: FuzzyView, delta: int)
    requires
        p.consistent(),
    ensures
        p.moved(delta).moved(-delta) == p,
{
    lemma_ranking_len(p.sources, p.query);
    let n = p.ranked.len() as int;
    if n > 0 {
        let a = (p.cursor + delta) % n;
        vstd::arithmetic::div_mod::lemma_mod_bound(p.cursor + delta, n);
        vstd::arithmetic::div_mod::lemma_sub_mod_noop_right(0, 0, n);
        vstd::arithmetic::div_mod::lemma_add_mod_noop(a, -delta, n);
        vstd::arithmetic::div_mod::lemma_add_mod_noop(p.cursor + delta, -delta, n);
        vstd::arithmetic::div_mod::lemma_mod_twice(p.cursor + delta, n);
        vstd::arithmetic::div_mod::lemma_small_mod(p.cursor as nat, n as nat);
    }
}

/// The row that is highlighted matches what was typed, and while the
/// highlight is on the first row no other row matches better.
pub proof fn highlighted_row_matches(p: FuzzyView, i: usize)
    requires
        p.consistent(),
        p.selected() == Some(i),
    ensures
        i < p.sources.len(),
        row_score(p.sources[i as int], p.query) is Some,
        p.cursor == 0 ==> forall|j: int|
            0 <= j < p.sources.len() && row_score(#[trigger] p.sources[j], p.query) is Some
                ==> row_score(p.sources[j], p.query)->0 <= row_score(
                p.sources[i as int],
                p.query,
            )->0,
{
    ranking_exists(p.sources, p.query);
    if p.cursor == 0 {
        assert forall|j: int|
            0 <= j < p.sources.len() && row_score(
                #[trigger] p.sources[j],
                p.query,
            ) is Some implies row_score(p.sources[j], p.query)->0 <= row_score(
            p.sources[i as int],
            p.query,
        )->0 by {
            let k = choose|k: int| 0 <= k < p.ranked.len() && (#[trigger] p.ranked[k]).0 == j;
            if k > 0 {
                assert(listed_before(p.ranked[0], p.ranked[k]));
            }
        }
    }
}

impl View for FuzzyPicker {
    type V = FuzzyView;

    closed spec fn view(&self) -> FuzzyView {
        FuzzyView {
            target: self.target,
            sources: texts(self.sources@),
            query: self.query@,
            ranked: self.ranked@,
            cursor: self.cursor,
        }
    }
}

/// All that there is to a picker but for the memory of the matcher.
proof fn lemma_picker_is_told(p: FuzzyPicker)
    ensures
        p@.target == p.target,
        p@.sources == texts(p.sources@),
        p@.query == p.query@,
        p@.ranked == p.ranked@,
        p@.cursor == p.cursor,
{
}

impl FuzzyPicker {
    /// A picker over `sources` in which nothing has been typed.
    pub fn new(target: FuzzyTarget, sources: Vec<String>) -> (p: Self)
        ensures
            p@ == FuzzyView::opened(target, texts(sources@)),
            p@.consistent(),
    {
        let mut matcher = new_matcher();
        let ranked = rank_rows(&mut matcher, &sources, "");
        proof {
            reveal_strlit("");
            assert(""@ =~= Seq::<char>::empty());
            assert(sources.len() <= usize::MAX);
        }
        FuzzyPicker { target, sources, query: String::new(), ranked, cursor: 0, matcher }
    }

    /// Types a character.
    pub fn push_char(&mut self, c: char)
        ensures
            final(self)@ == old(self)@.typed(c),
    {
        self.query.push(c);
        self.rescore();
    }

    /// Takes the last character back.
    pub fn pop_char(&mut self)
        ensures
            final(self)@ == old(self)@.erased(),
    {
        let gone = self.query.pop();
        self.rescore();
    }

    fn rescore(&mut self)
        ensures
            final(self)@ == old(self)@.searching(old(self)@.query),
    {
        self.ranked = rank_rows(&mut self.matcher, &self.sources, self.query.as_str());
        self.cursor = 0;
    }

    /// Moves the highlight by `delta` rows, round the ends.
    pub fn move_cursor(&mut self, delta: i32)
        ensures
            final(self)@ == old(self)@.moved(delta as int),
    {
        if self.ranked.len() == 0 {
            self.cursor = 0;
            return;
        }
        let len: i128 = self.ranked.len() as i128;
        let at: i128 = self.cursor as i128 + delta as i128;
        if let Some(r) = at.checked_rem_euclid(len) {
            self.cursor = r as usize;
        }
    }

    /// What is chosen from.
    pub fn target(&self) -> (t: FuzzyTarget)
        ensures
            t == self@.target,
    {
        self.target
    }

    /// What has been typed.
    pub fn query(&self) -> (q: &str)
        ensures
            q@ == self@.query,
    {
        self.query.as_str()
    }

    /// The index and the score of every row that matches, best first.
    pub fn ranked(&self) -> (r: &Vec<(usize, u32)>)
        ensures
            r@ == self@.ranked,
    {
        &self.ranked
    }

    /// The row with this index, if there is one.
    pub fn source(&self, i: usize) -> (row: Option<&str>)
        ensures
            row is Some <==> i < self@.sources.len(),
            row matches Some(t) ==> t@ == self@.sources[i as int],
    {
        if i < self.sources.len() {
            Some(self.sources[i].as_str())
        } else {
            None
        }
    }

    /// Which of the listed rows is highlighted.
    pub fn cursor(&self) -> (i: usize)
        ensures
            i == self@.cursor,
    {
        self.cursor
    }

    /// The index into the rows of the one that is highlighted.
    pub fn selected_source_index(&self) -> (i: Option<usize>)
        ensures
            i == self@.selected(),
    {
        if self.cursor < self.ranked.len() {
            Some(self.ranked[self.cursor].0)
        } else {
            None
        }
    }
}

} // verus!
