//! Whether the score of a long query fits into the 16 bits of the matcher.
//!
//! A query that is too long for the matcher's exact search is scored in one
//! walk over the row, from the first matched character to the last. The walk
//! is followed here, with numbers that cannot overflow.

use crate::text::{first_index, lemma_first_index_is, white_space};
use nucleo::chars::{is_upper_case, normalize, to_lower_case};
use vstd::prelude::*;

verus! {

/// What `char::is_lowercase` answers: the Unicode property Lowercase.
pub uninterp spec fn lower_case(c: char) -> bool;

/// `char::is_lowercase` answers by the character alone.
pub assume_specification[ char::is_lowercase ](c: char) -> (b: bool)
    ensures
        b == lower_case(c),
;

/// What `char::is_numeric` answers: the Unicode categories of numbers.
pub uninterp spec fn numeric(c: char) -> bool;

/// `char::is_numeric` answers by the character alone.
pub assume_specification[ char::is_numeric ](c: char) -> (b: bool)
    ensures
        b == numeric(c),
;

/// What `char::is_alphabetic` answers: the Unicode property Alphabetic.
pub uninterp spec fn alphabetic(c: char) -> bool;

/// `char::is_alphabetic` answers by the character alone.
pub assume_specification[ char::is_alphabetic ](c: char) -> (b: bool)
    ensures
        b == alphabetic(c),
;

/// What `nucleo::chars::is_upper_case` answers: whether simple case folding
/// has an entry for the character.
pub uninterp spec fn upper_case(c: char) -> bool;

/// `nucleo::chars::is_upper_case` answers by the character alone.
pub assume_specification[ is_upper_case ](c: char) -> (b: bool)
    ensures
        b == upper_case(c),
;

/// What `nucleo::chars::to_lower_case` gives: the character by simple case
/// folding.
pub uninterp spec fn case_folded(c: char) -> char;

/// `nucleo::chars::to_lower_case` goes by the character alone.
pub assume_specification[ to_lower_case ](c: char) -> (d: char)
    ensures
        d == case_folded(c),
;

/// What `nucleo::chars::normalize` gives: the letter under an accent.
pub uninterp spec fn unaccented(c: char) -> char;

/// `nucleo::chars::normalize` goes by the character alone.
pub assume_specification[ normalize ](c: char) -> (d: char)
    ensures
        d == unaccented(c),
;

/// The kinds of characters that the matcher tells apart.
#[derive(Debug, Clone, Copy, PartialEq, Eq, Structural)]
pub enum Class {
    Whitespace,
    NonWord,
    Delimiter,
    Lower,
    Upper,
    Letter,
    Number,
}

/// A text as the matcher takes it: byte by byte, each as the character of that
/// number, or by the first characters of its graphemes.
pub struct Units {
    pub chars: Vec<char>,
    pub bytewise: bool,
}

/// The contents of [`Units`].
#[verifier::ext_equal]
pub struct UnitsView {
    pub chars: Seq<char>,
    pub bytewise: bool,
}

impl View for Units {
    type V = UnitsView;

    open spec fn view(&self) -> UnitsView {
        UnitsView { chars: self.chars@, bytewise: self.bytewise }
    }
}

/// The kind of an ASCII character, or of a byte beyond ASCII.
pub open spec fn byte_class(c: char) -> Class {
    if 'a' <= c <= 'z' {
        Class::Lower
    } else if 'A' <= c <= 'Z' {
        Class::Upper
    } else if '0' <= c <= '9' {
        Class::Number
    } else if c == ' ' || c == '\t' || c == '\n' || c == '\u{c}' || c == '\r' {
        Class::Whitespace
    } else if c == '/' || c == ',' || c == ':' || c == ';' || c == '|' {
        Class::Delimiter
    } else {
        Class::NonWord
    }
}

/// A capital of ASCII as a small letter, and anything else as it is.
pub open spec fn small(c: char) -> char {
    if 'A' <= c <= 'Z' {
        (c as u32 + 32) as char
    } else {
        c
    }
}

impl UnitsView {
    /// The kind of the character at `i`.
    pub open spec fn class(self, i: int) -> Class {
        let c = self.chars[i];
        if self.bytewise || c <= '\u{7f}' {
            byte_class(c)
        } else if lower_case(c) {
            Class::Lower
        } else if upper_case(c) {
            Class::Upper
        } else if numeric(c) {
            Class::Number
        } else if alphabetic(c) {
            Class::Letter
        } else if white_space(c) {
            Class::Whitespace
        } else {
            Class::NonWord
        }
    }

    /// A character as it is compared with those of a query.
    pub open spec fn folded(self, c: char) -> char {
        if self.bytewise || c <= '\u{7f}' {
            small(c)
        } else {
            case_folded(unaccented(c))
        }
    }

    /// Picks the characters that the search for `c` stops at. Byte by byte, a
    /// capital stands for itself alone.
    pub open spec fn met_by(self, c: char) -> spec_fn(char) -> bool {
        |d: char| self.meets(c, d)
    }

    /// Whether the search for `c` stops at `d`.
    pub open spec fn meets(self, c: char, d: char) -> bool {
        if self.bytewise {
            c == d || ('a' <= c <= 'z' && small(d) == c)
        } else {
            self.folded(d) == c
        }
    }

    /// The index of the last character before `end` that the search for `c`
    /// stops at, or -1.
    pub open spec fn last_met(self, c: char, end: int) -> int
        decreases end,
    {
        if end <= 0 {
            -1
        } else if self.meets(c, self.chars[end - 1]) {
            end - 1
        } else {
            self.last_met(c, end - 1)
        }
    }

    /// One past where the search for the characters of `n` from `k` on ends,
    /// one after the other from index `i` on, or -1 if one is not found.
    pub open spec fn reach(self, n: Seq<char>, k: int, i: int) -> int
        decreases self.chars.len() - i,
    {
        if k >= n.len() {
            i
        } else if i >= self.chars.len() {
            -1
        } else if self.meets(n[k], self.chars[i]) {
            self.reach(n, k + 1, i + 1)
        } else {
            self.reach(n, k, i + 1)
        }
    }

    /// Where the search backwards for the characters of `n` from `k` down to
    /// the first ends, from index `i` down to `low`; `low` if one is not found.
    pub open spec fn back(self, n: Seq<char>, k: int, i: int, low: int) -> int
        decreases i - low + 1,
    {
        if i < low {
            low
        } else if self.folded(self.chars[i]) == n[k] {
            if k <= 0 {
                i
            } else {
                self.back(n, k - 1, i - 1, low)
            }
        } else {
            self.back(n, k, i - 1, low)
        }
    }

    /// Whether `n` lies at index `at`, accents and capitals aside.
    pub open spec fn holds(self, n: UnitsView, at: int) -> bool {
        forall|k: int|
            0 <= k < n.chars.len() ==> self.folded(self.chars[at + k]) == n.folded(
                #[trigger] n.chars[k],
            )
    }
}

/// The bonus for a match behind a character of the kind `prev`.
pub open spec fn bonus(prev: Class, class: Class) -> int {
    let in_word = class == Class::Lower || class == Class::Upper || class == Class::Letter || class
        == Class::Number;
    if in_word && prev == Class::Whitespace {
        10
    } else if in_word && prev == Class::Delimiter {
        9
    } else if in_word && prev == Class::NonWord {
        8
    } else if prev == Class::Lower && class == Class::Upper {
        5
    } else if prev != Class::Number && class == Class::Number {
        5
    } else if class == Class::Whitespace {
        10
    } else if class == Class::NonWord {
        8
    } else {
        0
    }
}

/// How far a walk has come.
#[verifier::ext_equal]
pub struct Walk {
    pub score: int,
    /// The highest score on the way.
    pub peak: int,
    /// The bonus of the run of matches at hand.
    pub first: int,
    pub in_gap: bool,
    pub in_run: bool,
    /// The index of the next character of the query.
    pub next: int,
}

impl Walk {
    /// The first character has matched, with this bonus.
    pub open spec fn begun(first: int) -> Walk {
        Walk {
            score: 16 + 2 * first,
            peak: 16 + 2 * first,
            first,
            in_gap: false,
            in_run: true,
            next: 1,
        }
    }

    /// A character has matched, with this bonus, in a query of length `len`.
    pub open spec fn matched(self, bonus: int, len: nat) -> Walk {
        let first = if !self.in_run || (bonus >= 8 && bonus > self.first) {
            bonus
        } else {
            self.first
        };
        let added = if !self.in_run {
            bonus
        } else if bonus >= 4 && bonus >= first {
            bonus
        } else if first >= 4 {
            first
        } else {
            4
        };
        let score = self.score + 16 + added;
        Walk {
            score,
            peak: if score > self.peak {
                score
            } else {
                self.peak
            },
            first,
            in_gap: false,
            in_run: true,
            next: if self.next + 1 < len {
                self.next + 1
            } else {
                self.next
            },
        }
    }

    /// A character has been passed over.
    pub open spec fn missed(self) -> Walk {
        let penalty = if self.in_gap {
            1
        } else {
            3int
        };
        Walk {
            score: if self.score >= penalty {
                self.score - penalty
            } else {
                0
            },
            in_gap: true,
            in_run: false,
            ..self
        }
    }
}

impl UnitsView {
    /// The bonus for a match at index `i`; the start counts as white space.
    pub open spec fn bonus_at(self, i: int) -> int {
        bonus(
            if i == 0 {
                Class::Whitespace
            } else {
                self.class(i - 1)
            },
            self.class(i),
        )
    }

    /// The walk for `n` from `start`, where its first character matches, up to
    /// `end`.
    pub open spec fn walk(self, n: Seq<char>, start: int, end: int) -> Walk
        decreases end - start,
    {
        if end <= start + 1 {
            Walk::begun(self.bonus_at(start))
        } else {
            let w = self.walk(n, start, end - 1);
            if self.folded(self.chars[end - 1]) == n[w.next] {
                w.matched(self.bonus_at(end - 1), n.len())
            } else {
                w.missed()
            }
        }
    }

    /// Whether no score on that walk exceeds 16 bits.
    pub open spec fn walk_fits(self, n: Seq<char>, start: int, end: int) -> bool {
        self.walk(n, start, end).peak <= 0xffff
    }

    /// The same for the walk to which the search for `n` from `start` on leads,
    /// if it finds all of it.
    pub open spec fn search_fits(self, n: Seq<char>, start: int) -> bool {
        let end = self.reach(n, 1, start + 1);
        end >= 0 ==> self.walk_fits(n, self.back(n, n.len() - 1, end - 1, start), end)
    }

    /// Whether a query that is too long for the exact search is scored without
    /// exceeding 16 bits, or not at all because it does not match.
    pub open spec fn score_fits(self, n: UnitsView) -> bool {
        let (h_len, n_len) = (self.chars.len(), n.chars.len());
        let start = first_index(self.chars, self.met_by(n.chars.first()));
        let end = self.last_met(n.chars.last(), h_len as int) + 1;
        if n_len > h_len || (self.bytewise && !n.bytewise) {
            true
        } else if n_len == h_len {
            self.holds(n, 0) ==> self.walk_fits(n.chars, 0, h_len as int)
        } else if self.bytewise {
            start < h_len ==> self.search_fits(n.chars, start)
        } else if end - start < n_len {
            true
        } else if end - start == n_len {
            self.holds(n, start) ==> self.walk_fits(n.chars, start, end)
        } else {
            self.search_fits(n.chars, start)
        }
    }
}

/// Small letters behind a small letter score sixteen for the first one and
/// twenty for every other one, as long as they are those of the query.
pub proof fn letters_score_twenty_each(h: UnitsView, n: Seq<char>, start: int, end: int)
    requires
        1 <= start < end <= h.chars.len(),
        end - start <= n.len(),
        forall|i: int| start - 1 <= i < end ==> 'a' <= #[trigger] h.chars[i] <= 'z',
        forall|i: int| start <= i < end ==> #[trigger] h.chars[i] == n[i - start],
    ensures
        h.walk(n, start, end).score == 16 + 20 * (end - start - 1),
        h.walk(n, start, end).peak == 16 + 20 * (end - start - 1),
        h.walk(n, start, end).first == 0,
        h.walk(n, start, end).in_run,
        h.walk(n, start, end).next == (if end - start < n.len() {
            end - start
        } else {
            n.len() - 1
        }) || n.len() == 1,
        h.walk_fits(n, start, end) <==> end - start <= 3276,
    decreases end - start,
{
    assert('a' <= h.chars[start - 1] <= 'z');
    assert('a' <= h.chars[start] <= 'z');
    if end > start + 1 {
        letters_score_twenty_each(h, n, start, end - 1);
        assert('a' <= h.chars[end - 2] <= 'z');
        assert('a' <= h.chars[end - 1] <= 'z');
        assert(h.chars[end - 1] == n[end - 1 - start]);
        assert(h.bonus_at(end - 1) == 0);
    } else {
        assert(h.bonus_at(start) == 0);
    }
}

/// A query that is longer than the row, or that is not ASCII where the row is,
/// has no score that could fail to fit.
pub proof fn queries_without_a_match_fit(h: UnitsView, n: UnitsView)
    ensures
        n.chars.len() > h.chars.len() ==> h.score_fits(n),
        h.bytewise && !n.bytewise ==> h.score_fits(n),
{
}

fn byte_class_of(c: char) -> (class: Class)
    ensures
        class == byte_class(c),
{
    if 'a' <= c && c <= 'z' {
        Class::Lower
    } else if 'A' <= c && c <= 'Z' {
        Class::Upper
    } else if '0' <= c && c <= '9' {
        Class::Number
    } else if c == ' ' || c == '\t' || c == '\n' || c == '\u{c}' || c == '\r' {
        Class::Whitespace
    } else if c == '/' || c == ',' || c == ':' || c == ';' || c == '|' {
        Class::Delimiter
    } else {
        Class::NonWord
    }
}

fn small_of(c: char) -> (d: char)
    ensures
        d == small(c),
{
    if 'A' <= c && c <= 'Z' {
        let n: u8 = c as u8;
        (n + 32) as char
    } else {
        c
    }
}

fn bonus_of(prev: Class, class: Class) -> (n: u32)
    ensures
        n == bonus(prev, class),
        n <= 10,
{
    let in_word = class == Class::Lower || class == Class::Upper || class == Class::Letter || class
        == Class::Number;
    if in_word && prev == Class::Whitespace {
        10
    } else if in_word && prev == Class::Delimiter {
        9
    } else if in_word && prev == Class::NonWord {
        8
    } else if prev == Class::Lower && class == Class::Upper {
        5
    } else if prev != Class::Number && class == Class::Number {
        5
    } else if class == Class::Whitespace {
        10
    } else if class == Class::NonWord {
        8
    } else {
        0
    }
}

/// A [`Walk`] in numbers of the machine.
struct Walker {
    score: u128,
    peak: u128,
    first: u32,
    in_gap: bool,
    in_run: bool,
    next: usize,
}

impl View for Walker {
    type V = Walk;

    closed spec fn view(&self) -> Walk {
        Walk {
            score: self.score as int,
            peak: self.peak as int,
            first: self.first as int,
            in_gap: self.in_gap,
            in_run: self.in_run,
            next: self.next as int,
        }
    }
}

impl Walker {
    /// Whether the numbers are bounded by the steps taken.
    spec fn bounded(&self, steps: int) -> bool {
        &&& self.score <= self.peak <= 36 + 26 * steps
        &&& self.first <= 10
    }

    fn pass(&mut self, Ghost(steps): Ghost<int>)
        requires
            old(self).bounded(steps),
            steps >= 0,
        ensures
            final(self)@ == old(self)@.missed(),
            final(self).bounded(steps + 1),
    {
        let penalty: u128 = if self.in_gap {
            1
        } else {
            3
        };
        self.score = if self.score >= penalty {
            self.score - penalty
        } else {
            0
        };
        self.in_gap = true;
        self.in_run = false;
    }

    fn take(&mut self, bonus: u32, len: usize, Ghost(steps): Ghost<int>)
        requires
            old(self).bounded(steps),
            0 <= steps <= usize::MAX,
            bonus <= 10,
            old(self).next < len,
        ensures
            final(self)@ == old(self)@.matched(bonus as int, len as nat),
            final(self).bounded(steps + 1),
            final(self).next < len,
    {
        let first = if !self.in_run || (bonus >= 8 && bonus > self.first) {
            bonus
        } else {
            self.first
        };
        let added: u32 = if !self.in_run {
            bonus
        } else if bonus >= 4 && bonus >= first {
            bonus
        } else if first >= 4 {
            first
        } else {
            4
        };
        self.score = self.score + 16 + added as u128;
        if self.score > self.peak {
            self.peak = self.score;
        }
        self.first = first;
        self.in_gap = false;
        self.in_run = true;
        if self.next + 1 < len {
            self.next = self.next + 1;
        }
    }
}

impl Units {
    fn class_of(&self, i: usize) -> (class: Class)
        requires
            i < self@.chars.len(),
        ensures
            class == self@.class(i as int),
    {
        let c = self.chars[i];
        if self.bytewise || c <= '\u{7f}' {
            byte_class_of(c)
        } else if c.is_lowercase() {
            Class::Lower
        } else if is_upper_case(c) {
            Class::Upper
        } else if c.is_numeric() {
            Class::Number
        } else if c.is_alphabetic() {
            Class::Letter
        } else if c.is_whitespace() {
            Class::Whitespace
        } else {
            Class::NonWord
        }
    }

    fn fold(&self, c: char) -> (d: char)
        ensures
            d == self@.folded(c),
    {
        if self.bytewise || c <= '\u{7f}' {
            small_of(c)
        } else {
            to_lower_case(normalize(c))
        }
    }

    fn does_meet(&self, c: char, d: char) -> (b: bool)
        ensures
            b == self@.meets(c, d),
    {
        if self.bytewise {
            c == d || ('a' <= c && c <= 'z' && small_of(d) == c)
        } else {
            self.fold(d) == c
        }
    }

    fn first_of(&self, c: char) -> (i: usize)
        ensures
            i == first_index(self@.chars, self@.met_by(c)),
            i <= self@.chars.len(),
    {
        let mut i: usize = 0;
        while i < self.chars.len() && !self.does_meet(c, self.chars[i])
            invariant
                i <= self@.chars.len(),
                forall|j: int| 0 <= j < i ==> !self@.meets(c, #[trigger] self@.chars[j]),
            decreases self.chars.len() - i,
        {
            i = i + 1;
        }
        proof {
            lemma_first_index_is(self@.chars, self@.met_by(c), i as int);
        }
        i
    }

    /// One past the last character that the search for `c` stops at, or 0.
    fn end_of(&self, c: char) -> (end: usize)
        ensures
            end == self@.last_met(c, self@.chars.len() as int) + 1,
            end <= self@.chars.len(),
    {
        let mut end: usize = self.chars.len();
        while end > 0 && !self.does_meet(c, self.chars[end - 1])
            invariant
                end <= self@.chars.len(),
                self@.last_met(c, end as int) == self@.last_met(c, self@.chars.len() as int),
            decreases end,
        {
            end = end - 1;
        }
        end
    }

    fn reach_of(&self, n: &Vec<char>, start: usize) -> (end: Option<usize>)
        requires
            start <= self@.chars.len(),
        ensures
            end matches Some(e) ==> e == self@.reach(n@, 1, start as int) && start <= e
                <= self@.chars.len(),
            end is None ==> self@.reach(n@, 1, start as int) == -1,
    {
        let mut k: usize = 1;
        let mut i: usize = start;
        while k < n.len()
            invariant
                start <= i <= self@.chars.len(),
                self@.reach(n@, k as int, i as int) == self@.reach(n@, 1, start as int),
            decreases self@.chars.len() - i,
        {
            if i >= self.chars.len() {
                return None;
            }
            if self.does_meet(n[k], self.chars[i]) {
                k = k + 1;
            }
            i = i + 1;
        }
        Some(i)
    }

    fn back_of(&self, n: &Vec<char>, end: usize, low: usize) -> (start: usize)
        requires
            low < end <= self@.chars.len(),
            n@.len() > 0,
        ensures
            start == self@.back(n@, n@.len() - 1, end - 1, low as int),
            low <= start < end,
    {
        let mut k: usize = n.len() - 1;
        let mut i: usize = end;
        while i > low
            invariant
                low <= i <= end <= self@.chars.len(),
                low < end,
                k < n@.len(),
                self@.back(n@, k as int, i - 1, low as int) == self@.back(
                    n@,
                    n@.len() - 1,
                    end - 1,
                    low as int,
                ),
            decreases i,
        {
            i = i - 1;
            if self.fold(self.chars[i]) == n[k] {
                if k == 0 {
                    return i;
                }
                k = k - 1;
            }
        }
        low
    }

    fn does_hold(&self, n: &Units, at: usize) -> (b: bool)
        requires
            at + n@.chars.len() <= self@.chars.len(),
        ensures
            b == self@.holds(n@, at as int),
    {
        let len = self.chars.len();
        let mut k: usize = 0;
        while k < n.chars.len()
            invariant
                at + n@.chars.len() <= self@.chars.len(),
                len == self@.chars.len(),
                k <= n@.chars.len(),
                forall|j: int|
                    0 <= j < k ==> self@.folded(self@.chars[at + j]) == n@.folded(
                        #[trigger] n@.chars[j],
                    ),
            decreases n.chars.len() - k,
        {
            if self.fold(self.chars[at + k]) != n.fold(n.chars[k]) {
                assert(self@.folded(self@.chars[at + k]) != n@.folded(n@.chars[k as int]));
                return false;
            }
            k = k + 1;
        }
        true
    }

    fn bonus_before(&self, i: usize) -> (n: u32)
        requires
            i < self@.chars.len(),
        ensures
            n == self@.bonus_at(i as int),
            n <= 10,
    {
        let prev = if i == 0 {
            Class::Whitespace
        } else {
            self.class_of(i - 1)
        };
        bonus_of(prev, self.class_of(i))
    }

    fn does_walk_fit(&self, n: &Vec<char>, start: usize, end: usize) -> (b: bool)
        requires
            start < end <= self@.chars.len(),
            n@.len() >= 2,
        ensures
            b == self@.walk_fits(n@, start as int, end as int),
    {
        let first = self.bonus_before(start);
        let mut w = Walker {
            score: 16 + 2 * first as u128,
            peak: 16 + 2 * first as u128,
            first,
            in_gap: false,
            in_run: true,
            next: 1,
        };
        let mut i: usize = start + 1;
        while i < end
            invariant
                start < i <= end <= self@.chars.len(),
                n@.len() >= 2,
                w@ == self@.walk(n@, start as int, i as int),
                w.bounded(i - start),
                w.next < n@.len(),
            decreases end - i,
        {
            let ghost steps = i - start;
            if self.fold(self.chars[i]) == n[w.next] {
                let bonus = self.bonus_before(i);
                w.take(bonus, n.len(), Ghost(steps));
            } else {
                w.pass(Ghost(steps));
            }
            i = i + 1;
        }
        w.peak <= 0xffff
    }

    fn does_search_fit(&self, n: &Vec<char>, start: usize) -> (b: bool)
        requires
            start < self@.chars.len(),
            n@.len() >= 2,
        ensures
            b == self@.search_fits(n@, start as int),
    {
        let len = self.chars.len();
        assert(start < len);
        match self.reach_of(n, start + 1) {
            None => true,
            Some(end) => {
                let from = self.back_of(n, end, start);
                self.does_walk_fit(n, from, end)
            },
        }
    }

    /// Whether a query that is too long for the exact search is scored without
    /// exceeding 16 bits, or not at all because it does not match.
    pub fn does_score_fit(&self, n: &Units) -> (b: bool)
        requires
            n@.chars.len() >= 2,
        ensures
            b == self@.score_fits(n@),
    {
        let h_len = self.chars.len();
        let n_len = n.chars.len();
        if n_len > h_len || (self.bytewise && !n.bytewise) {
            return true;
        }
        if n_len == h_len {
            return !self.does_hold(n, 0) || self.does_walk_fit(&n.chars, 0, h_len);
        }
        let start = self.first_of(n.chars[0]);
        if self.bytewise {
            return start >= h_len || self.does_search_fit(&n.chars, start);
        }
        let end = self.end_of(n.chars[n_len - 1]);
        if end < start || end - start < n_len {
            true
        } else if end - start == n_len {
            !self.does_hold(n, start) || self.does_walk_fit(&n.chars, start, end)
        } else {
            self.does_search_fit(&n.chars, start)
        }
    }
}

} // verus!
