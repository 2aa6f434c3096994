//! Which rows a picker lists, and in which order.

use crate::fuzzy::{
    answers, fuzzy_score, has_capital, is_ranking, ranking, ranking_exists, row_score, FuzzyView,
};
use vstd::prelude::*;
use vstd::utf8::encode_utf8;

verus! {

/// Every row is listed while nothing has been typed. After that a row is listed
/// exactly if the matcher answers with a score, and with that score.
pub proof fn rows_are_scored_by_the_matcher(row: Seq<char>, query: Seq<char>)
    ensures
        query.len() == 0 ==> row_score(row, query) == Some(0u32),
        query.len() > 0 && answers(row, query) ==> {
            &&& row_score(row, query) is Some <==> fuzzy_score(row, query) is Some
            &&& row_score(row, query) is Some ==> row_score(row, query)->0 == fuzzy_score(
                row,
                query,
            )->0
        },
        query.len() > 0 && !answers(row, query) ==> row_score(row, query) is None,
{
}

/// The matcher answers for every query without capitals of up to 2520 bytes, and
/// for every row of less than four gigabytes.
pub proof fn ordinary_queries_are_answered(row: Seq<char>, query: Seq<char>)
    requires
        encode_utf8(row).len() <= 0xffff_ffff,
        encode_utf8(query).len() <= 2520,
        forall|i: int|
            0 <= i < encode_utf8(query).len() ==> !(65 <= #[trigger] encode_utf8(query)[i] <= 90),
    ensures
        answers(row, query),
{
    assert(!has_capital(encode_utf8(query)));
}

/// A list of rows shows every row that matches, once, and no other, the better
/// score first and the earlier row first among equals.
pub proof fn best_rows_come_first(
    sources: Seq<Seq<char>>,
    query: Seq<char>,
    i: int,
    j: int,
    row: int,
)
    requires
        sources.len() <= usize::MAX,
    ensures
        ({
            let r = ranking(sources, query);
            &&& 0 <= i < r.len() ==> {
                &&& r[i].0 < sources.len()
                &&& row_score(sources[r[i].0 as int], query) == Some(r[i].1)
            }
            &&& 0 <= i < j < r.len() ==> {
                &&& r[i].1 >= r[j].1
                &&& r[i].1 == r[j].1 ==> r[i].0 < r[j].0
                &&& r[i].0 != r[j].0
            }
            &&& 0 <= row < sources.len() && row_score(sources[row], query) is Some ==> exists|k: int|
                0 <= k < r.len() && (#[trigger] r[k]).0 == row
        }),
{
    ranking_exists(sources, query);
    let r = ranking(sources, query);
    assert(is_ranking(r, sources, query));
    if 0 <= i < j < r.len() {
        assert(r[i].1 >= r[j].1);
        assert(row_score(sources[r[i].0 as int], query) == Some(r[i].1));
        assert(row_score(sources[r[j].0 as int], query) == Some(r[j].1));
    }
    if 0 <= row < sources.len() {
        assert(row_score(sources[row], query) is Some ==> exists|k: int|
            0 <= k < r.len() && (#[trigger] r[k]).0 == row);
    }
}

/// The highlighted row is the one at the cursor, if there is one.
pub proof fn cursor_tells_the_highlighted_row(p: FuzzyView)
    ensures
        p.cursor < p.ranked.len() ==> p.selected() == Some(p.ranked[p.cursor as int].0),
        p.cursor >= p.ranked.len() ==> p.selected() is None,
{
}

} // verus!
