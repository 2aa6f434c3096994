//! Breaking text into lines that fit a number of columns.

use crate::text::{
    chars_of, join_lines, lemma_next_break, lines_from, lines_of, next_break, next_kind,
    split_goes_by_feeds, split_lines, split_undoes_join, split_words, text_of, texts, white_space, words_from,
    words_of,
};
use unicode_width::UnicodeWidthChar;
use vstd::prelude::*;

verus! {

/// What `UnicodeWidthChar::width` gives: the columns that a character takes
/// on a terminal, or `None` for a control character.
pub uninterp spec fn column_count(c: char) -> Option<usize>;

/// `UnicodeWidthChar::width`. ASCII from the space to the tilde takes one
/// column, control characters have none, and nothing takes more than three.
#[verifier::external_body]
fn width_of(c: char) -> (n: Option<usize>)
    ensures
        n == column_count(c),
        ' ' <= c <= '~' ==> n == Some(1usize),
        n matches Some(k) ==> k <= 3,
{
    UnicodeWidthChar::width(c)
}

/// The columns that a character takes: one for ASCII from the space to the
/// tilde, none for a control character.
pub open spec fn char_columns(c: char) -> nat {
    if ' ' <= c <= '~' {
        1
    } else {
        match column_count(c) {
            Some(n) => n as nat,
            None => 0,
        }
    }
}

/// The columns that a text takes.
pub open spec fn columns(s: Seq<char>) -> nat
    decreases s.len(),
{
    if s.len() == 0 {
        0
    } else {
        columns(s.drop_last()) + char_columns(s.last())
    }
}

/// Finished lines, and the one that is being filled.
#[verifier::ext_equal]
pub struct Filling {
    pub done: Seq<Seq<char>>,
    pub line: Seq<char>,
}

impl Filling {
    /// The line is finished and the next one begun.
    pub open spec fn broken(self) -> Filling {
        Filling { done: self.done.push(self.line), line: Seq::empty() }
    }

    /// A break if the line holds something and `n` more columns do not fit.
    pub open spec fn room_for(self, n: nat, width: nat) -> Filling {
        if self.line.len() > 0 && columns(self.line) + n > width {
            self.broken()
        } else {
            self
        }
    }

    /// One character of a word that is too long for a line.
    pub open spec fn with_char(self, c: char, width: nat) -> Filling {
        let f = self.room_for(char_columns(c), width);
        Filling { line: f.line.push(c), ..f }
    }

    /// The characters of a word that is too long for a line.
    pub open spec fn with_chars(self, word: Seq<char>, width: nat) -> Filling
        decreases word.len(),
    {
        if word.len() == 0 {
            self
        } else {
            self.with_chars(word.drop_last(), width).with_char(word.last(), width)
        }
    }

    /// A word: behind a space if it fits into the line, else on the next
    /// line, and broken at any character if it fits into no line.
    pub open spec fn with_word(self, word: Seq<char>, width: nat) -> Filling {
        let f = self.room_for(1 + columns(word), width);
        if columns(word) > width {
            f.with_chars(word, width)
        } else if f.line.len() == 0 {
            Filling { line: word, ..f }
        } else {
            Filling { line: f.line.push(' ') + word, ..f }
        }
    }

    /// A list of words.
    pub open spec fn with_words(self, words: Seq<Seq<char>>, width: nat) -> Filling
        decreases words.len(),
    {
        if words.len() == 0 {
            self
        } else {
            self.with_words(words.drop_last(), width).with_word(words.last(), width)
        }
    }
}

/// The lines of a paragraph.
pub open spec fn wrapped_paragraph(paragraph: Seq<char>, width: nat) -> Seq<Seq<char>> {
    let f = Filling { done: Seq::empty(), line: Seq::empty() }.with_words(
        split_words(paragraph),
        width,
    );
    f.done.push(f.line)
}

/// The lines of a list of paragraphs.
pub open spec fn wrapped_paragraphs(paragraphs: Seq<Seq<char>>, width: nat) -> Seq<Seq<char>>
    decreases paragraphs.len(),
{
    if paragraphs.len() == 0 {
        Seq::empty()
    } else {
        wrapped_paragraphs(paragraphs.drop_last(), width) + wrapped_paragraph(
            paragraphs.last(),
            width,
        )
    }
}

/// `text` broken into lines of at most `width` columns: every line feed
/// breaks, runs of white space count as one space, and only words that fit
/// into no line are broken inside. Without any columns there is nothing to
/// fit, and the text stays as it is.
pub open spec fn wrapped(text: Seq<char>, width: nat) -> Seq<Seq<char>> {
    if width == 0 {
        seq![text]
    } else {
        wrapped_paragraphs(split_lines(text), width)
    }
}

/// Whether a line fits, or is a single character that fits nowhere.
pub open spec fn fits(line: Seq<char>, width: nat) -> bool {
    columns(line) <= width || line.len() == 1
}

/// All lines put together.
pub open spec fn flat(lines: Seq<Seq<char>>) -> Seq<char>
    decreases lines.len(),
{
    if lines.len() == 0 {
        Seq::empty()
    } else {
        flat(lines.drop_last()) + lines.last()
    }
}

/// A text without its white space.
pub open spec fn ink(s: Seq<char>) -> Seq<char> {
    s.filter(|c: char| !white_space(c))
}


impl Filling {
    /// Everything that has been put in, in order.
    pub open spec fn content(self) -> Seq<char> {
        flat(self.done) + self.line
    }

    /// Whether every line fits.
    pub open spec fn all_fit(self, width: nat) -> bool {
        &&& forall|i: int| 0 <= i < self.done.len() ==> fits(#[trigger] self.done[i], width)
        &&& fits(self.line, width)
    }
}

/// The columns of two texts add up.
proof fn lemma_columns_add(a: Seq<char>, b: Seq<char>)
    ensures
        columns(a + b) == columns(a) + columns(b),
    decreases b.len(),
{
    if b.len() == 0 {
        assert(a + b =~= a);
    } else {
        lemma_columns_add(a, b.drop_last());
        assert((a + b).drop_last() =~= a + b.drop_last());
    }
}

/// Two lists of lines put together.
proof fn lemma_flat_add(a: Seq<Seq<char>>, b: Seq<Seq<char>>)
    ensures
        flat(a + b) == flat(a) + flat(b),
    decreases b.len(),
{
    if b.len() == 0 {
        assert(a + b =~= a);
        assert(flat(a) + flat(b) =~= flat(a));
    } else {
        lemma_flat_add(a, b.drop_last());
        assert((a + b).drop_last() =~= a + b.drop_last());
        assert(flat(a) + flat(b) =~= flat(a) + flat(b.drop_last()) + b.last());
    }
}

/// A single line.
proof fn lemma_flat_one(line: Seq<char>)
    ensures
        flat(seq![line]) == line,
{
    reveal_with_fuel(flat, 2);
    assert(flat(seq![line]) =~= line);
}

proof fn lemma_ink_add(a: Seq<char>, b: Seq<char>)
    ensures
        ink(a + b) == ink(a) + ink(b),
{
    Seq::filter_distributes_over_add(a, b, |c: char| !white_space(c));
}

proof fn lemma_ink_blank(s: Seq<char>)
    requires
        forall|i: int| 0 <= i < s.len() ==> white_space(#[trigger] s[i]),
    ensures
        ink(s) == Seq::<char>::empty(),
    decreases s.len(),
{
    reveal(Seq::filter);
    if s.len() > 0 {
        lemma_ink_blank(s.drop_last());
        assert(white_space(s.last()));
    }
}

proof fn lemma_chars(f: Filling, word: Seq<char>, width: nat)
    ensures
        f.with_chars(word, width).content() == f.content() + word,
        f.all_fit(width) ==> f.with_chars(word, width).all_fit(width),
    decreases word.len(),
{
    if word.len() == 0 {
        assert(f.content() + word =~= f.content());
    } else {
        lemma_chars(f, word.drop_last(), width);
        let g = f.with_chars(word.drop_last(), width);
        lemma_char(g, word.last(), width);
        assert(f.content() + word.drop_last() + seq![word.last()] =~= f.content() + word);
    }
}

proof fn lemma_room(f: Filling, n: nat, width: nat)
    ensures
        f.room_for(n, width).content() == f.content(),
        f.all_fit(width) ==> f.room_for(n, width).all_fit(width),
        f.room_for(n, width).line.len() > 0 ==> columns(f.room_for(n, width).line) + n <= width,
{
    let g = f.broken();
    assert(g.done.drop_last() =~= f.done);
    assert(g.content() =~= f.content());
}

proof fn lemma_char(f: Filling, c: char, width: nat)
    ensures
        f.with_char(c, width).content() == f.content() + seq![c],
        f.all_fit(width) ==> f.with_char(c, width).all_fit(width),
{
    lemma_room(f, char_columns(c), width);
    let g = f.room_for(char_columns(c), width);
    assert(g.line.push(c).drop_last() =~= g.line);
    assert(f.with_char(c, width).content() =~= f.content() + seq![c]);
}

proof fn lemma_word(f: Filling, word: Seq<char>, width: nat)
    ensures
        ink(f.with_word(word, width).content()) == ink(f.content()) + ink(word),
        f.all_fit(width) ==> f.with_word(word, width).all_fit(width),
{
    lemma_room(f, 1 + columns(word), width);
    let g = f.room_for(1 + columns(word), width);
    lemma_ink_add(f.content(), word);
    if columns(word) > width {
        lemma_chars(g, word, width);
    } else if g.line.len() == 0 {
        assert(f.with_word(word, width).content() =~= f.content() + word);
    } else {
        let space = seq![' '];
        assert(g.line.push(' ') =~= g.line + space);
        lemma_columns_add(g.line, space);
        lemma_columns_add(g.line + space, word);
        reveal_with_fuel(columns, 2);
        assert(columns(space) == 1);
        assert(f.with_word(word, width).content() =~= f.content() + space + word);
        lemma_ink_add(f.content() + space, word);
        lemma_ink_add(f.content(), space);
        lemma_ink_blank(space);
        assert(ink(f.content()) + ink(space) =~= ink(f.content()));
    }
}

proof fn lemma_words(f: Filling, words: Seq<Seq<char>>, width: nat)
    ensures
        ink(f.with_words(words, width).content()) == ink(f.content()) + ink(flat(words)),
        f.all_fit(width) ==> f.with_words(words, width).all_fit(width),
    decreases words.len(),
{
    if words.len() == 0 {
        reveal(Seq::filter);
        assert(ink(f.content()) + ink(flat(words)) =~= ink(f.content()));
    } else {
        lemma_words(f, words.drop_last(), width);
        lemma_word(f.with_words(words.drop_last(), width), words.last(), width);
        lemma_ink_add(flat(words.drop_last()), words.last());
        assert(ink(f.content()) + ink(flat(words.drop_last())) + ink(words.last()) =~= ink(
            f.content(),
        ) + ink(flat(words)));
    }
}

pub(crate) proof fn lemma_next_kind(s: Seq<char>, from: int, space: bool)
    requires
        0 <= from <= s.len(),
    ensures
        from <= next_kind(s, from, space) <= s.len(),
        next_kind(s, from, space) < s.len() ==> white_space(s[next_kind(s, from, space)]) == space,
        forall|i: int| from <= i < next_kind(s, from, space) ==> white_space(#[trigger] s[i]) != space,
    decreases s.len() - from,
{
    if from < s.len() && white_space(s[from]) != space {
        lemma_next_kind(s, from + 1, space);
    }
}

/// The words of a text hold all of it but the white space.
proof fn lemma_words_ink(s: Seq<char>, from: int)
    requires
        0 <= from <= s.len(),
    ensures
        ink(flat(words_from(s, from))) == ink(s.skip(from)),
    decreases s.len() - from,
{
    let start = next_kind(s, from, false);
    lemma_next_kind(s, from, false);
    lemma_next_kind(s, start, true);
    let end = next_kind(s, start, true);
    let gap = s.subrange(from, start);
    let word = s.subrange(start, end);
    lemma_ink_blank(gap);
    assert(s.skip(from) =~= gap + (word + s.skip(end)));
    lemma_ink_add(gap, word + s.skip(end));
    assert(ink(gap) + ink(word + s.skip(end)) =~= ink(word + s.skip(end)));
    if start < end {
        lemma_words_ink(s, end);
        lemma_ink_add(word, s.skip(end));
        let rest = words_from(s, end);
        lemma_flat_add(seq![word], rest);
        lemma_flat_one(word);
        lemma_ink_add(word, flat(rest));
    } else {
        assert(word + s.skip(end) =~= Seq::<char>::empty());
        assert(flat(words_from(s, from)) =~= Seq::<char>::empty());
    }
}

/// The lines of a text hold all of it but the line feeds.
proof fn lemma_lines_ink(s: Seq<char>, from: int)
    requires
        0 <= from <= s.len(),
    ensures
        ink(flat(lines_from(s, from))) == ink(s.skip(from)),
    decreases s.len() - from,
{
    lemma_next_break(s, from);
    let end = next_break(s, from);
    if from < s.len() && end < s.len() {
        lemma_lines_ink(s, end + 1);
        let line = s.subrange(from, end);
        let feed = seq!['\n'];
        let rest = lines_from(s, end + 1);
        assert(s.skip(from) =~= line + (feed + s.skip(end + 1)));
        lemma_ink_add(line, feed + s.skip(end + 1));
        lemma_ink_add(feed, s.skip(end + 1));
        lemma_ink_blank(feed);
        assert(ink(feed) + ink(s.skip(end + 1)) =~= ink(s.skip(end + 1)));
        lemma_flat_add(seq![line], rest);
        lemma_flat_one(line);
        lemma_ink_add(line, flat(rest));
    } else {
        let line = s.skip(from);
        assert(from < s.len() ==> s.subrange(from, s.len() as int) =~= line);
        assert(from == s.len() ==> Seq::<char>::empty() =~= line);
        assert(lines_from(s, from) == seq![line]);
        lemma_flat_one(line);
    }
}

proof fn lemma_paragraph(paragraph: Seq<char>, width: nat)
    ensures
        ink(flat(wrapped_paragraph(paragraph, width))) == ink(paragraph),
        forall|i: int|
            0 <= i < wrapped_paragraph(paragraph, width).len() ==> fits(
                #[trigger] wrapped_paragraph(paragraph, width)[i],
                width,
            ),
{
    let start = Filling { done: Seq::empty(), line: Seq::empty() };
    let f = start.with_words(split_words(paragraph), width);
    lemma_words(start, split_words(paragraph), width);
    lemma_words_ink(paragraph, 0);
    assert(paragraph.skip(0) =~= paragraph);
    assert(start.content() =~= Seq::<char>::empty());
    reveal(Seq::filter);
    assert(ink(start.content()) + ink(paragraph) =~= ink(paragraph));
    assert(f.done.push(f.line).drop_last() =~= f.done);
}

proof fn lemma_paragraphs(paragraphs: Seq<Seq<char>>, width: nat)
    ensures
        ink(flat(wrapped_paragraphs(paragraphs, width))) == ink(flat(paragraphs)),
        forall|i: int|
            0 <= i < wrapped_paragraphs(paragraphs, width).len() ==> fits(
                #[trigger] wrapped_paragraphs(paragraphs, width)[i],
                width,
            ),
        wrapped_paragraphs(paragraphs, width).len() >= paragraphs.len(),
    decreases paragraphs.len(),
{
    if paragraphs.len() > 0 {
        lemma_paragraphs(paragraphs.drop_last(), width);
        lemma_paragraph(paragraphs.last(), width);
        let a = wrapped_paragraphs(paragraphs.drop_last(), width);
        let b = wrapped_paragraph(paragraphs.last(), width);
        lemma_flat_add(a, b);
        lemma_ink_add(flat(a), flat(b));
        lemma_ink_add(flat(paragraphs.drop_last()), paragraphs.last());
        assert forall|i: int| 0 <= i < (a + b).len() implies fits(#[trigger] (a + b)[i], width) by {
            if i < a.len() {
                assert((a + b)[i] == a[i]);
            } else {
                assert((a + b)[i] == b[i - a.len()]);
            }
        }
    }
}

/// Whether `word` holds something, and no white space.
pub open spec fn solid(word: Seq<char>) -> bool {
    &&& word.len() > 0
    &&& forall|i: int| 0 <= i < word.len() ==> !white_space(#[trigger] word[i])
}

/// Whether a line is made of words with one space between each two.
pub open spec fn spaced(line: Seq<char>) -> bool {
    &&& line.len() > 0 ==> !white_space(line.first()) && !white_space(line.last())
    &&& forall|i: int|
        0 <= i < line.len() && white_space(#[trigger] line[i]) ==> line[i] == ' '
    &&& forall|i: int, j: int|
        0 <= i < line.len() && j == i + 1 && white_space(#[trigger] line[i]) ==> !white_space(
            #[trigger] line[j],
        )
}

impl Filling {
    /// Whether every line is made of words with one space between each two.
    pub open spec fn all_spaced(self) -> bool {
        &&& forall|i: int| 0 <= i < self.done.len() ==> spaced(#[trigger] self.done[i])
        &&& spaced(self.line)
    }
}

proof fn lemma_words_solid(s: Seq<char>, from: int)
    requires
        0 <= from <= s.len(),
    ensures
        forall|k: int|
            0 <= k < words_from(s, from).len() ==> solid(#[trigger] words_from(s, from)[k]),
    decreases s.len() - from,
{
    let start = next_kind(s, from, false);
    lemma_next_kind(s, from, false);
    lemma_next_kind(s, start, true);
    let end = next_kind(s, start, true);
    if start < end {
        lemma_words_solid(s, end);
        let word = s.subrange(start, end);
        let rest = words_from(s, end);
        assert forall|k: int| 0 <= k < words_from(s, from).len() implies solid(
            #[trigger] words_from(s, from)[k],
        ) by {
            if k == 0 {
                assert forall|i: int| 0 <= i < word.len() implies !white_space(
                    #[trigger] word[i],
                ) by {
                    assert(word[i] == s[start + i]);
                }
            } else {
                assert(words_from(s, from)[k] == rest[k - 1]);
            }
        }
    }
}

proof fn lemma_chars_spaced(f: Filling, word: Seq<char>, width: nat)
    requires
        f.all_spaced(),
        forall|i: int| 0 <= i < word.len() ==> !white_space(#[trigger] word[i]),
    ensures
        f.with_chars(word, width).all_spaced(),
    decreases word.len(),
{
    if word.len() > 0 {
        lemma_chars_spaced(f, word.drop_last(), width);
        assert(!white_space(word.last()));
    }
}

proof fn lemma_words_spaced(f: Filling, words: Seq<Seq<char>>, width: nat)
    requires
        f.all_spaced(),
        forall|k: int| 0 <= k < words.len() ==> solid(#[trigger] words[k]),
    ensures
        f.with_words(words, width).all_spaced(),
    decreases words.len(),
{
    if words.len() > 0 {
        lemma_words_spaced(f, words.drop_last(), width);
        let word = words.last();
        assert(solid(word));
        let g = f.with_words(words.drop_last(), width).room_for(1 + columns(word), width);
        assert(g.all_spaced());
        lemma_chars_spaced(g, word, width);
        if g.line.len() > 0 {
            let line = g.line.push(' ') + word;
            assert forall|i: int|
                0 <= i < line.len() && white_space(#[trigger] line[i]) implies line[i] == ' ' by {
                if i > g.line.len() {
                    assert(line[i] == word[i - g.line.len() - 1]);
                }
            }
            assert forall|i: int, j: int|
                0 <= i < line.len() && j == i + 1 && white_space(
                    #[trigger] line[i],
                ) implies !white_space(#[trigger] line[j]) by {
                if i >= g.line.len() {
                    if i > g.line.len() {
                        assert(line[i] == word[i - g.line.len() - 1]);
                    } else {
                        assert(line[j] == word[0]);
                    }
                } else if j < g.line.len() {
                    assert(line[i] == g.line[i]);
                    assert(line[j] == g.line[j]);
                } else {
                    assert(line[i] == g.line.last());
                }
            }
            assert(line.last() == word.last());
            assert(line.first() == g.line.first());
            assert(spaced(line));
        }
    }
}

/// Putting the first of some words in, then the others.
proof fn lemma_word_first(f: Filling, word: Seq<char>, rest: Seq<Seq<char>>, width: nat)
    ensures
        f.with_words(seq![word] + rest, width) == f.with_word(word, width).with_words(rest, width),
    decreases rest.len(),
{
    let all = seq![word] + rest;
    if rest.len() == 0 {
        reveal_with_fuel(Filling::with_words, 2);
        assert(all =~= seq![word]);
        assert(all.drop_last() =~= Seq::<Seq<char>>::empty());
    } else {
        lemma_word_first(f, word, rest.drop_last(), width);
        assert(all.drop_last() =~= seq![word] + rest.drop_last());
        assert(all.last() == rest.last());
    }
}

/// The words of the rest of a line that fits, put in behind its start, fill
/// the line up again.
proof fn lemma_refills(done: Seq<Seq<char>>, line: Seq<char>, from: int, width: nat)
    requires
        spaced(line),
        columns(line) <= width,
        0 <= from <= line.len(),
        0 < from < line.len() ==> white_space(line[from]),
    ensures
        (Filling { done, line: line.take(from) }).with_words(words_from(line, from), width) == (
        Filling { done, line }),
    decreases line.len() - from,
{
    let f = Filling { done, line: line.take(from) };
    let start = next_kind(line, from, false);
    lemma_next_kind(line, from, false);
    if from == line.len() {
        assert(line.take(from) =~= line);
        assert(words_from(line, from) =~= Seq::<Seq<char>>::empty());
    } else {
        if from == 0 {
            assert(!white_space(line[0]));
            assert(start == 0);
        } else {
            assert(white_space(line[from]));
            assert(line[from] == ' ');
            assert(line.last() == line[line.len() - 1]);
            assert(from + 1 < line.len());
            assert(!white_space(line[from + 1]));
            reveal_with_fuel(next_kind, 3);
            assert(start == from + 1);
        }
        lemma_next_kind(line, start, true);
        let end = next_kind(line, start, true);
        let word = line.subrange(start, end);
        assert(line =~= line.take(end) + line.skip(end));
        lemma_columns_add(line.take(end), line.skip(end));
        if from == 0 {
            assert(word =~= line.take(end));
        } else {
            let space = seq![' '];
            assert(start == from + 1);
            assert(line.take(end) =~= line.take(from) + space + word);
            assert(line.take(end) =~= line.take(from).push(' ') + word);
            lemma_columns_add(line.take(from) + space, word);
            lemma_columns_add(line.take(from), space);
            reveal_with_fuel(columns, 2);
            assert(columns(space) == 1);
        }
        assert(f.with_word(word, width) == (Filling { done, line: line.take(end) }));
        lemma_refills(done, line, end, width);
        lemma_word_first(f, word, words_from(line, end), width);
    }
}

/// A line that fits is its own wrapping.
proof fn lemma_wrapped_again(line: Seq<char>, width: nat)
    requires
        spaced(line),
        fits(line, width),
    ensures
        wrapped_paragraph(line, width) == seq![line],
{
    let f = Filling { done: Seq::empty(), line: Seq::empty() };
    if columns(line) <= width {
        assert(line.take(0) =~= Seq::<char>::empty());
        lemma_refills(Seq::empty(), line, 0, width);
    } else {
        assert(!white_space(line[0]));
        lemma_next_kind(line, 0, true);
        reveal_with_fuel(next_kind, 3);
        assert(next_kind(line, 0, false) == 0);
        assert(next_kind(line, 0, true) == 1);
        let word = line.subrange(0, 1);
        assert(word =~= line);
        assert(words_from(line, 1) =~= Seq::<Seq<char>>::empty());
        assert(words_from(line, 0) =~= seq![word] + Seq::<Seq<char>>::empty());
        lemma_word_first(f, word, Seq::empty(), width);
        reveal_with_fuel(Filling::with_chars, 2);
        assert(f.with_chars(word, width) =~= f.with_char(word[0], width));
        assert(f.line.push(word[0]) =~= line);
    }
    assert(wrapped_paragraph(line, width) =~= seq![line]);
}

proof fn lemma_paragraphs_spaced(paragraphs: Seq<Seq<char>>, width: nat)
    ensures
        forall|i: int|
            0 <= i < wrapped_paragraphs(paragraphs, width).len() ==> spaced(
                #[trigger] wrapped_paragraphs(paragraphs, width)[i],
            ),
    decreases paragraphs.len(),
{
    if paragraphs.len() > 0 {
        lemma_paragraphs_spaced(paragraphs.drop_last(), width);
        let a = wrapped_paragraphs(paragraphs.drop_last(), width);
        let b = wrapped_paragraph(paragraphs.last(), width);
        let start = Filling { done: Seq::empty(), line: Seq::empty() };
        lemma_words_solid(paragraphs.last(), 0);
        lemma_words_spaced(start, split_words(paragraphs.last()), width);
        assert forall|i: int| 0 <= i < (a + b).len() implies spaced(#[trigger] (a + b)[i]) by {
            if i < a.len() {
                assert((a + b)[i] == a[i]);
            } else {
                assert((a + b)[i] == b[i - a.len()]);
            }
        }
    }
}

proof fn lemma_all_wrapped_again(lines: Seq<Seq<char>>, width: nat)
    requires
        forall|i: int| 0 <= i < lines.len() ==> spaced(#[trigger] lines[i]),
        forall|i: int| 0 <= i < lines.len() ==> fits(#[trigger] lines[i], width),
    ensures
        wrapped_paragraphs(lines, width) == lines,
    decreases lines.len(),
{
    if lines.len() > 0 {
        lemma_all_wrapped_again(lines.drop_last(), width);
        lemma_wrapped_again(lines.last(), width);
        assert(lines =~= lines.drop_last() + seq![lines.last()]);
    } else {
        assert(wrapped_paragraphs(lines, width) =~= lines);
    }
}

/// Wrapping what has been wrapped to the same width changes nothing.
pub proof fn wrapping_again_changes_nothing(text: Seq<char>, width: nat)
    requires
        width > 0,
    ensures
        wrapped(join_lines(wrapped(text, width)), width) == wrapped(text, width),
{
    let lines = wrapped(text, width);
    let paragraphs = split_lines(text);
    lemma_paragraphs(paragraphs, width);
    lemma_paragraphs_spaced(paragraphs, width);
    assert(paragraphs.len() > 0);
    assert forall|i: int| 0 <= i < lines.len() implies !(#[trigger] lines[i]).contains('\n') by {
        assert(spaced(lines[i]));
        if lines[i].contains('\n') {
            let k = lines[i].index_of('\n');
            assert(white_space(lines[i][k]));
        }
    }
    split_undoes_join(lines);
    lemma_all_wrapped_again(lines, width);
}

proof fn lemma_paragraphs_add(a: Seq<Seq<char>>, b: Seq<Seq<char>>, width: nat)
    ensures
        wrapped_paragraphs(a + b, width) == wrapped_paragraphs(a, width) + wrapped_paragraphs(
            b,
            width,
        ),
    decreases b.len(),
{
    if b.len() == 0 {
        assert(a + b =~= a);
        assert(wrapped_paragraphs(a, width) + wrapped_paragraphs(b, width) =~= wrapped_paragraphs(
            a,
            width,
        ));
    } else {
        lemma_paragraphs_add(a, b.drop_last(), width);
        assert((a + b).drop_last() =~= a + b.drop_last());
        assert(wrapped_paragraphs(a + b, width) =~= wrapped_paragraphs(a, width)
            + wrapped_paragraphs(b, width));
    }
}

/// Two texts with a line feed between them are wrapped each by itself.
pub proof fn wrapping_goes_by_paragraphs(a: Seq<char>, b: Seq<char>, width: nat)
    requires
        width > 0,
    ensures
        wrapped(a.push('\n') + b, width) == wrapped(a, width) + wrapped(b, width),
{
    split_goes_by_feeds(a, b);
    lemma_paragraphs_add(split_lines(a), split_lines(b), width);
}

/// The words of all lines, in order.
pub open spec fn words_in(lines: Seq<Seq<char>>) -> Seq<Seq<char>>
    decreases lines.len(),
{
    if lines.len() == 0 {
        Seq::empty()
    } else {
        words_in(lines.drop_last()) + split_words(lines.last())
    }
}

impl Filling {
    /// The columns that are taken, with the space for the next word in mind: an
    /// empty line needs none.
    spec fn used(self) -> int {
        if self.line.len() == 0 {
            -1
        } else {
            columns(self.line) as int
        }
    }

    /// Whether no more lines are finished than in `other`, and no more columns
    /// taken if as many are.
    spec fn no_further_than(self, other: Filling) -> bool {
        self.done.len() < other.done.len() || (self.done.len() == other.done.len() && self.used()
            <= other.used())
    }
}

/// What a word that fits into a line does.
proof fn lemma_word_used(f: Filling, word: Seq<char>, width: nat)
    requires
        word.len() > 0,
        columns(word) <= width,
    ensures
        f.used() + 1 + columns(word) > width ==> f.with_word(word, width).done.len()
            == f.done.len() + 1 && f.with_word(word, width).used() == columns(word),
        f.used() + 1 + columns(word) <= width ==> f.with_word(word, width).done.len()
            == f.done.len() && f.with_word(word, width).used() == f.used() + 1 + columns(word),
{
    let space = seq![' '];
    assert(f.line.push(' ') =~= f.line + space);
    lemma_columns_add(f.line, space);
    lemma_columns_add(f.line + space, word);
    reveal_with_fuel(columns, 2);
    assert(columns(space) == 1);
}

/// Who is no further stays so with every word.
proof fn lemma_words_in_step(f: Filling, g: Filling, words: Seq<Seq<char>>, width: nat)
    requires
        f.no_further_than(g),
        forall|k: int| 0 <= k < words.len() ==> solid(#[trigger] words[k]),
        forall|k: int| 0 <= k < words.len() ==> columns(#[trigger] words[k]) <= width,
    ensures
        f.with_words(words, width).no_further_than(g.with_words(words, width)),
    decreases words.len(),
{
    if words.len() > 0 {
        lemma_words_in_step(f, g, words.drop_last(), width);
        let word = words.last();
        assert(solid(word));
        assert(columns(word) <= width);
        lemma_word_used(f.with_words(words.drop_last(), width), word, width);
        lemma_word_used(g.with_words(words.drop_last(), width), word, width);
    }
}

proof fn lemma_words_add(f: Filling, a: Seq<Seq<char>>, b: Seq<Seq<char>>, width: nat)
    ensures
        f.with_words(a + b, width) == f.with_words(a, width).with_words(b, width),
    decreases b.len(),
{
    if b.len() == 0 {
        assert(a + b =~= a);
    } else {
        lemma_words_add(f, a, b.drop_last(), width);
        assert((a + b).drop_last() =~= a + b.drop_last());
    }
}

/// Filling line by line is no further than any lines with the same words.
proof fn lemma_filling_is_ahead(lines: Seq<Seq<char>>, width: nat)
    requires
        lines.len() > 0,
        forall|i: int| 0 <= i < lines.len() ==> spaced(#[trigger] lines[i]),
        forall|i: int| 0 <= i < lines.len() ==> columns(#[trigger] lines[i]) <= width,
        forall|k: int| 0 <= k < words_in(lines).len() ==> columns(#[trigger] words_in(lines)[k])
            <= width,
    ensures
        (Filling { done: Seq::empty(), line: Seq::empty() }).with_words(
            words_in(lines),
            width,
        ).no_further_than(Filling { done: lines.drop_last(), line: lines.last() }),
    decreases lines.len(),
{
    let start = Filling { done: Seq::empty(), line: Seq::empty() };
    let before = lines.drop_last();
    let last = lines.last();
    let (early, late) = (words_in(before), split_words(last));
    let f = start.with_words(early, width);
    let g = Filling { done: before, line: Seq::empty() };
    assert(spaced(last));
    assert(columns(last) <= width);
    assert forall|k: int| 0 <= k < early.len() implies columns(#[trigger] early[k]) <= width by {
        assert(words_in(lines)[k] == early[k]);
    }
    assert forall|k: int| 0 <= k < late.len() implies columns(#[trigger] late[k]) <= width by {
        assert(words_in(lines)[early.len() + k] == late[k]);
    }
    if before.len() > 0 {
        lemma_filling_is_ahead(before, width);
    } else {
        assert(early =~= Seq::<Seq<char>>::empty());
    }
    assert(f.no_further_than(g));
    lemma_words_solid(last, 0);
    lemma_words_in_step(f, g, late, width);
    lemma_words_add(start, early, late, width);
    assert(last.take(0) =~= Seq::<char>::empty());
    lemma_refills(before, last, 0, width);
}

/// No fewer lines would do: wherever the words of a paragraph fit into lines,
/// parted by single spaces, it is wrapped into no more lines than those.
pub proof fn no_fewer_lines_would_do(paragraph: Seq<char>, lines: Seq<Seq<char>>, width: nat)
    requires
        lines.len() > 0,
        words_in(lines) == split_words(paragraph),
        forall|i: int| 0 <= i < lines.len() ==> spaced(#[trigger] lines[i]),
        forall|i: int| 0 <= i < lines.len() ==> columns(#[trigger] lines[i]) <= width,
        forall|k: int|
            0 <= k < split_words(paragraph).len() ==> columns(#[trigger] split_words(paragraph)[k])
                <= width,
    ensures
        wrapped_paragraph(paragraph, width).len() <= lines.len(),
{
    lemma_filling_is_ahead(lines, width);
}

/// No line is wider than it may be, unless it is a single character, nothing but
/// white space gets lost, and there is a line for every line of the text.
pub proof fn wrapping_fits_and_keeps_all(text: Seq<char>, width: nat, i: int)
    requires
        width > 0,
    ensures
        ({
            let lines = wrapped(text, width);
            &&& 0 <= i < lines.len() ==> columns(lines[i]) <= width || lines[i].len() == 1
            &&& flat(lines).filter(|c: char| !white_space(c)) == text.filter(
                |c: char| !white_space(c),
            )
            &&& lines.len() >= split_lines(text).len()
        }),
{
    lemma_paragraphs(split_lines(text), width);
    lemma_lines_ink(text, 0);
    assert(text.skip(0) =~= text);
    if 0 <= i < wrapped(text, width).len() {
        assert(fits(wrapped(text, width)[i], width));
    }
}

/// Lines are put together one behind the other.
pub proof fn lines_are_put_together(lines: Seq<Seq<char>>, line: Seq<char>)
    ensures
        flat(Seq::empty()) == Seq::<char>::empty(),
        flat(lines.push(line)) == flat(lines) + line,
{
    assert(lines.push(line).drop_last() =~= lines);
}

/// Columns add up character by character; printable ASCII takes one each.
pub proof fn columns_add_up(s: Seq<char>, c: char)
    ensures
        columns(Seq::empty()) == 0,
        columns(s.push(c)) == columns(s) + char_columns(c),
        ' ' <= c <= '~' ==> char_columns(c) == 1,
{
    assert(s.push(c).drop_last() =~= s);
}

/// Without any columns the text stays in one piece.
pub proof fn nothing_is_wrapped_to_no_columns(text: Seq<char>)
    ensures
        wrapped(text, 0) == seq![text],
{
}

/// The first word of a line that begins with one.
spec fn head(line: Seq<char>) -> Seq<char> {
    line.take(next_kind(line, 0, true))
}

proof fn lemma_kind_is(s: Seq<char>, end: int)
    requires
        0 <= end <= s.len(),
        end < s.len() ==> white_space(s[end]),
        forall|i: int| 0 <= i < end ==> !white_space(#[trigger] s[i]),
    ensures
        next_kind(s, 0, true) == end,
{
    lemma_next_kind(s, 0, true);
    let k = next_kind(s, 0, true);
    if k < end {
        assert(!white_space(s[k]));
    }
}

/// Whether the first word of `b` has no room behind `a`.
spec fn no_room(a: Seq<char>, b: Seq<char>, width: nat) -> bool {
    b.len() > 0 && columns(a) + 1 + columns(head(b)) > width
}

impl Filling {
    /// Whether no line was finished while there was room for the next word.
    spec fn all_full(self, width: nat) -> bool {
        &&& forall|i: int, j: int|
            0 <= i < self.done.len() && j == i + 1 && j < self.done.len() ==> no_room(
                #[trigger] self.done[i],
                #[trigger] self.done[j],
                width,
            )
        &&& self.done.len() > 0 ==> no_room(self.done.last(), self.line, width)
    }
}

proof fn lemma_words_full(f: Filling, words: Seq<Seq<char>>, width: nat)
    requires
        f.all_full(width),
        f.all_spaced(),
        forall|k: int| 0 <= k < words.len() ==> solid(#[trigger] words[k]),
        forall|k: int| 0 <= k < words.len() ==> columns(#[trigger] words[k]) <= width,
    ensures
        f.with_words(words, width).all_full(width),
    decreases words.len(),
{
    if words.len() > 0 {
        let before = words.drop_last();
        let word = words.last();
        assert(solid(word));
        assert(columns(word) <= width);
        lemma_words_full(f, before, width);
        let g = f.with_words(before, width);
        let n = g.with_word(word, width);
        if g.line.len() > 0 && columns(g.line) + 1 + columns(word) > width {
            lemma_kind_is(word, word.len() as int);
            assert(head(word) =~= word);
            assert(n.done == g.done.push(g.line));
            assert(n.line == word);
        } else if g.line.len() > 0 {
            let line = g.line.push(' ') + word;
            let end = next_kind(g.line, 0, true);
            lemma_next_kind(g.line, 0, true);
            assert forall|i: int| 0 <= i < end implies !white_space(#[trigger] line[i]) by {
                assert(line[i] == g.line[i]);
            }
            if end < g.line.len() {
                assert(line[end] == g.line[end]);
            }
            lemma_kind_is(line, end);
            assert(head(line) =~= head(g.line));
            assert(n.line == line);
        }
    }
}

/// No line is broken while there is room for the next word, where every word
/// fits into a line.
pub proof fn lines_are_filled(paragraph: Seq<char>, width: nat, i: int)
    requires
        forall|k: int|
            0 <= k < split_words(paragraph).len() ==> columns(#[trigger] split_words(paragraph)[k])
                <= width,
        0 <= i,
        i + 1 < wrapped_paragraph(paragraph, width).len(),
    ensures
        ({
            let line = wrapped_paragraph(paragraph, width)[i];
            let next = wrapped_paragraph(paragraph, width)[i + 1];
            &&& split_words(next).len() > 0
            &&& columns(line) + 1 + columns(split_words(next)[0]) > width
        }),
{
    let start = Filling { done: Seq::empty(), line: Seq::empty() };
    let words = split_words(paragraph);
    lemma_words_solid(paragraph, 0);
    lemma_words_full(start, words, width);
    lemma_words_spaced(start, words, width);
    let f = start.with_words(words, width);
    let next = wrapped_paragraph(paragraph, width)[i + 1];
    if i + 1 < f.done.len() {
        assert(no_room(f.done[i], f.done[i + 1], width));
        assert(spaced(f.done[i + 1]));
    } else {
        assert(no_room(f.done.last(), f.line, width));
    }
    assert(spaced(next) && next.len() > 0);
    assert(!white_space(next[0]));
    assert(next_kind(next, 0, false) == 0);
    lemma_next_kind(next, 0, true);
    let end = next_kind(next, 0, true);
    assert(words_from(next, 0) == seq![next.subrange(0, end)] + words_from(next, end));
    assert(next.subrange(0, end) =~= head(next));
}

/// Whether the first character of `b` has no room behind `a`.
spec fn no_room_at_all(a: Seq<char>, b: Seq<char>, width: nat) -> bool {
    b.len() > 0 && columns(a) + char_columns(b[0]) > width
}

impl Filling {
    /// Whether no line was finished while there was room for the next character.
    spec fn all_packed(self, width: nat) -> bool {
        &&& forall|i: int, j: int|
            0 <= i < self.done.len() && j == i + 1 && j < self.done.len() ==> no_room_at_all(
                #[trigger] self.done[i],
                #[trigger] self.done[j],
                width,
            )
        &&& self.done.len() > 0 ==> no_room_at_all(self.done.last(), self.line, width)
    }
}

proof fn lemma_chars_packed(f: Filling, word: Seq<char>, width: nat)
    requires
        f.all_packed(width),
    ensures
        f.with_chars(word, width).all_packed(width),
    decreases word.len(),
{
    if word.len() > 0 {
        lemma_chars_packed(f, word.drop_last(), width);
        let g = f.with_chars(word.drop_last(), width);
        let c = word.last();
        let n = g.with_char(c, width);
        if g.line.len() > 0 && columns(g.line) + char_columns(c) > width {
            assert(n.done == g.done.push(g.line));
            assert(n.line =~= seq![c]);
        } else if g.line.len() > 0 {
            assert(n.line[0] == g.line[0]);
        }
    }
}

/// A word that fits into no line is cut, but only where there is no room for
/// the next character, and nothing of it is lost.
pub proof fn long_words_are_cut_late(word: Seq<char>, width: nat, i: int)
    requires
        solid(word),
        columns(word) > width,
    ensures
        ({
            let lines = wrapped_paragraph(word, width);
            &&& flat(lines) == word
            &&& 0 <= i && i + 1 < lines.len() ==> lines[i + 1].len() > 0 && columns(lines[i])
                + char_columns(lines[i + 1][0]) > width
        }),
{
    let start = Filling { done: Seq::empty(), line: Seq::empty() };
    assert(!white_space(word[0]));
    assert(next_kind(word, 0, false) == 0);
    lemma_kind_is(word, word.len() as int);
    lemma_next_kind(word, word.len() as int, false);
    assert(word.subrange(0, word.len() as int) =~= word);
    assert(words_from(word, word.len() as int) =~= Seq::<Seq<char>>::empty());
    assert(split_words(word) =~= seq![word] + Seq::<Seq<char>>::empty());
    lemma_word_first(start, word, Seq::empty(), width);
    lemma_chars(start, word, width);
    lemma_chars_packed(start, word, width);
    let f = start.with_words(split_words(word), width);
    assert(f == start.with_chars(word, width));
    assert(start.content() + word =~= word);
    let lines = f.done.push(f.line);
    assert(lines.drop_last() =~= f.done);
    assert(flat(lines) == f.content());
    if 0 <= i && i + 1 < lines.len() {
        if i + 1 < f.done.len() {
            assert(no_room_at_all(f.done[i], f.done[i + 1], width));
        } else {
            assert(no_room_at_all(f.done.last(), f.line, width));
        }
    }
}

/// The columns that a character takes.
fn columns_of_char(c: char) -> (n: u128)
    ensures
        n == char_columns(c),
        n <= 3,
{
    match width_of(c) {
        Some(n) => n as u128,
        None => 0,
    }
}

/// The columns that a word takes.
fn columns_of_word(word: &Vec<char>) -> (n: u128)
    ensures
        n == columns(word@),
        n <= 3 * word@.len(),
{
    let mut n: u128 = 0;
    let mut i: usize = 0;
    while i < word.len()
        invariant
            i <= word@.len(),
            n == columns(word@.take(i as int)),
            n <= 3 * i,
        decreases word.len() - i,
    {
        assert(word@.take(i + 1).drop_last() =~= word@.take(i as int));
        n = n + columns_of_char(word[i]);
        i = i + 1;
    }
    assert(word@.take(word@.len() as int) =~= word@);
    n
}

/// Finished lines, and the one that is being filled with the columns it takes.
struct Filler {
    done: Vec<String>,
    line: Vec<char>,
    used: u128,
}

impl View for Filler {
    type V = Filling;

    closed spec fn view(&self) -> Filling {
        Filling { done: texts(self.done@), line: self.line@ }
    }
}

impl Filler {
    /// Whether the columns have been counted right.
    spec fn counted(&self) -> bool {
        &&& self.used == columns(self.line@)
        &&& self.used <= 3 * self.line@.len()
        &&& self.line@.len() <= usize::MAX
    }

    fn break_line(&mut self)
        requires
            old(self).counted(),
        ensures
            final(self).counted(),
            final(self)@ == old(self)@.broken(),
    {
        let line = text_of(&self.line, 0, self.line.len());
        assert(line@ =~= self.line@);
        self.done.push(line);
        self.line = Vec::new();
        self.used = 0;
        assert(texts(self.done@) =~= old(self)@.done.push(line@));
        assert(self.line@ =~= Seq::<char>::empty());
    }

    fn make_room(&mut self, n: u128, width: usize)
        requires
            old(self).counted(),
            n <= 0x1_0000_0000_0000_0000_0000,
        ensures
            final(self).counted(),
            final(self)@ == old(self)@.room_for(n as nat, width as nat),
    {
        if self.line.len() > 0 && self.used + n > width as u128 {
            self.break_line();
        }
    }

    /// Appends a character that has been measured.
    fn push(&mut self, c: char)
        requires
            old(self).counted(),
        ensures
            final(self).counted(),
            final(self)@ == (Filling { line: old(self)@.line.push(c), ..old(self)@ }),
    {
        let n = columns_of_char(c);
        let ghost before = self.line@;
        self.line.push(c);
        self.used = self.used + n;
        proof {
            assert(self.line@.drop_last() =~= before);
            assert(self.line.len() <= usize::MAX);
        }
    }

    fn add_long_word(&mut self, word: &Vec<char>, width: usize)
        requires
            old(self).counted(),
        ensures
            final(self).counted(),
            final(self)@ == old(self)@.with_chars(word@, width as nat),
    {
        let ghost start = self@;
        let mut i: usize = 0;
        while i < word.len()
            invariant
                i <= word@.len(),
                self.counted(),
                self@ == start.with_chars(word@.take(i as int), width as nat),
            decreases word.len() - i,
        {
            assert(word@.take(i + 1).drop_last() =~= word@.take(i as int));
            let n = columns_of_char(word[i]);
            self.make_room(n, width);
            self.push(word[i]);
            i = i + 1;
        }
        assert(word@.take(word@.len() as int) =~= word@);
    }

    fn add_word(&mut self, word: &Vec<char>, width: usize)
        requires
            old(self).counted(),
        ensures
            final(self).counted(),
            final(self)@ == old(self)@.with_word(word@, width as nat),
    {
        let n = columns_of_word(word);
        assert(word.len() <= usize::MAX);
        self.make_room(n + 1, width);
        if n > width as u128 {
            self.add_long_word(word, width);
            return;
        }
        if self.line.len() > 0 {
            self.push(' ');
        }
        let ghost start = self.line@;
        let mut i: usize = 0;
        assert(start + word@.take(0) =~= start);
        while i < word.len()
            invariant
                i <= word@.len(),
                self.counted(),
                self@.done == old(self)@.room_for(1 + columns(word@), width as nat).done,
                self.line@ == start + word@.take(i as int),
            decreases word.len() - i,
        {
            assert(word@.take(i + 1) =~= word@.take(i as int).push(word@[i as int]));
            self.push(word[i]);
            assert(self.line@ =~= start + word@.take(i + 1));
            i = i + 1;
        }
        assert(word@.take(word@.len() as int) =~= word@);
        assert(Seq::<char>::empty() + word@ =~= word@);
    }
}

/// The lines of a paragraph.
fn wrap_paragraph(paragraph: &str, width: usize) -> (lines: Vec<String>)
    ensures
        texts(lines@) == wrapped_paragraph(paragraph@, width as nat),
{
    let words = words_of(paragraph);
    let mut f = Filler { done: Vec::new(), line: Vec::new(), used: 0 };
    let ghost start = f@;
    let mut i: usize = 0;
    assert(start =~= Filling { done: Seq::empty(), line: Seq::empty() });
    while i < words.len()
        invariant
            i <= words@.len(),
            f.counted(),
            f@ == start.with_words(texts(words@).take(i as int), width as nat),
        decreases words.len() - i,
    {
        proof {
            let t = texts(words@);
            assert(t.take(i + 1).drop_last() =~= t.take(i as int));
            assert(t.take(i + 1).last() == words@[i as int]@);
        }
        let word = chars_of(words[i].as_str());
        f.add_word(&word, width);
        i = i + 1;
    }
    assert(texts(words@).take(words@.len() as int) =~= texts(words@));
    f.break_line();
    f.done
}

/// Breaks `text` into lines of at most `width` columns. No line is wider,
/// unless it is a single character, nothing but white space gets lost, words
/// are parted by single spaces, and every line feed begins a line.
pub fn wrap_text(text: &str, width: usize) -> (lines: Vec<String>)
    ensures
        texts(lines@) == wrapped(text@, width as nat),
        width > 0 ==> forall|i: int|
            0 <= i < lines@.len() ==> fits((#[trigger] texts(lines@)[i]), width as nat),
        ink(flat(texts(lines@))) == ink(text@),
        width > 0 ==> forall|i: int|
            0 <= i < lines@.len() ==> spaced((#[trigger] texts(lines@)[i])),
        width > 0 ==> lines@.len() >= split_lines(text@).len(),
{
    let mut lines: Vec<String> = Vec::new();
    if width == 0 {
        lines.push(text.to_string());
        proof {
            assert(texts(lines@) =~= seq![text@]);
            lemma_flat_one(text@);
        }
        return lines;
    }
    let paragraphs = lines_of(text);
    let mut i: usize = 0;
    assert(texts(lines@) =~= Seq::<Seq<char>>::empty());
    while i < paragraphs.len()
        invariant
            i <= paragraphs@.len(),
            texts(lines@) == wrapped_paragraphs(texts(paragraphs@).take(i as int), width as nat),
        decreases paragraphs.len() - i,
    {
        proof {
            let t = texts(paragraphs@);
            assert(t.take(i + 1).drop_last() =~= t.take(i as int));
            assert(t.take(i + 1).last() == paragraphs@[i as int]@);
        }
        let ghost before = lines@;
        let mut more = wrap_paragraph(paragraphs[i].as_str(), width);
        let ghost added = more@;
        lines.append(&mut more);
        assert(texts(lines@) =~= texts(before) + texts(added));
        i = i + 1;
    }
    proof {
        assert(texts(paragraphs@).take(paragraphs@.len() as int) =~= texts(paragraphs@));
        lemma_paragraphs(split_lines(text@), width as nat);
        lemma_paragraphs_spaced(split_lines(text@), width as nat);
        lemma_lines_ink(text@, 0);
        assert(text@.skip(0) =~= text@);
    }
    lines
}

} // verus!
