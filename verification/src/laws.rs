//! Laws of the search engine: soundness, completeness, order preservation,
//! determinism, and the behaviour of the empty query, proved over the
//! mathematical model in [`crate::text`].

use vstd::prelude::*;

use crate::text::filter_lines;
use crate::text::lemma_contains_empty;
use crate::text::line_pred;
use crate::text::lower;
use crate::text::spec_contains;
use crate::text::spec_lines;
use crate::text::spec_search;

verus! {

/// `sub` is `full` with zero or more elements left out and the rest kept in
/// their original order.
pub open spec fn is_subsequence(sub: Seq<Seq<char>>, full: Seq<Seq<char>>) -> bool
    decreases full.len(),
{
    if sub.len() == 0 {
        true
    } else if full.len() == 0 {
        false
    } else if sub.last() == full.last() {
        is_subsequence(sub.drop_last(), full.drop_last())
    } else {
        is_subsequence(sub, full.drop_last())
    }
}

proof fn lemma_subsequence_extend(sub: Seq<Seq<char>>, full: Seq<Seq<char>>, x: Seq<char>)
    requires
        is_subsequence(sub, full),
    ensures
        sub.len() > 0 ==> is_subsequence(sub.drop_last(), full),
        is_subsequence(sub, full.push(x)),
    decreases full.len(),
{
    if sub.len() > 0 {
        if full.len() == 0 {
            assert(false);
        } else if sub.last() == full.last() {
            lemma_subsequence_extend(sub.drop_last(), full.drop_last(), full.last());
            assert(full.drop_last().push(full.last()) =~= full);
        } else {
            lemma_subsequence_extend(sub, full.drop_last(), full.last());
            lemma_subsequence_extend(sub.drop_last(), full.drop_last(), full.last());
            assert(full.drop_last().push(full.last()) =~= full);
        }
    }
    assert(full.push(x).drop_last() =~= full);
    if sub.len() == 0 {
    } else if sub.last() == x {
        assert(is_subsequence(sub, full.push(x)));
    } else {
        assert(is_subsequence(sub, full.push(x)));
    }
}

proof fn lemma_filter_lines_is_subsequence(
    lines: Seq<Seq<char>>,
    query: Seq<char>,
    case_sensitive: bool,
)
    ensures
        is_subsequence(filter_lines(lines, query, case_sensitive), lines),
    decreases lines.len(),
{
    if lines.len() > 0 {
        let dl = lines.drop_last();
        lemma_filter_lines_is_subsequence(dl, query, case_sensitive);
        let fd = filter_lines(dl, query, case_sensitive);
        if line_pred(lines.last(), query, case_sensitive) {
            let f = fd.push(lines.last());
            assert(f.drop_last() =~= fd);
            assert(is_subsequence(f, lines));
        } else {
            lemma_subsequence_extend(fd, dl, lines.last());
            assert(dl.push(lines.last()) =~= lines);
        }
    }
}

proof fn lemma_filter_lines_membership(
    lines: Seq<Seq<char>>,
    query: Seq<char>,
    case_sensitive: bool,
)
    ensures
        forall|i: int| 0 <= i < filter_lines(lines, query, case_sensitive).len() ==> lines.contains(
            #[trigger] filter_lines(lines, query, case_sensitive)[i],
        ) && line_pred(filter_lines(lines, query, case_sensitive)[i], query, case_sensitive),
        forall|i: int|
            0 <= i < lines.len() && line_pred(#[trigger] lines[i], query, case_sensitive)
                ==> filter_lines(lines, query, case_sensitive).contains(lines[i]),
    decreases lines.len(),
{
    if lines.len() > 0 {
        let dl = lines.drop_last();
        let f = filter_lines(lines, query, case_sensitive);
        let fd = filter_lines(dl, query, case_sensitive);
        lemma_filter_lines_membership(dl, query, case_sensitive);
        assert forall|i: int| 0 <= i < f.len() implies lines.contains(#[trigger] f[i]) && line_pred(
            f[i],
            query,
            case_sensitive,
        ) by {
            if i < fd.len() {
                assert(dl.contains(fd[i]));
                let k = choose|k: int| 0 <= k < dl.len() && dl[k] == fd[i];
                assert(lines[k] == f[i]);
            } else {
                assert(f[i] == lines.last());
                assert(lines[lines.len() - 1] == lines.last());
            }
        }
        assert forall|i: int|
            0 <= i < lines.len() && line_pred(#[trigger] lines[i], query, case_sensitive) implies f
            .contains(lines[i]) by {
            if i < lines.len() - 1 {
                assert(dl[i] == lines[i]);
                assert(fd.contains(lines[i]));
                let k = choose|k: int| 0 <= k < fd.len() && fd[k] == lines[i];
                assert(f[k] == lines[i]);
            } else {
                assert(lines[i] == lines.last());
                assert(f[f.len() - 1] == lines.last());
            }
        }
    }
}

/// Soundness and order of both search variants: every returned line is a
/// line of the contents and matches the query under the chosen comparison
/// mode, and the result keeps the lines in their original order with no
/// line taken twice.
pub proof fn lemma_search_sound(query: Seq<char>, contents: Seq<char>, case_sensitive: bool)
    ensures
        forall|i: int|
            0 <= i < spec_search(query, contents, case_sensitive).len() ==> spec_lines(
                contents,
            ).contains(#[trigger] spec_search(query, contents, case_sensitive)[i]) && line_pred(
                spec_search(query, contents, case_sensitive)[i],
                query,
                case_sensitive,
            ),
        is_subsequence(spec_search(query, contents, case_sensitive), spec_lines(contents)),
{
    lemma_filter_lines_membership(spec_lines(contents), query, case_sensitive);
    lemma_filter_lines_is_subsequence(spec_lines(contents), query, case_sensitive);
}

/// Completeness of both search variants: every line of the contents that
/// matches the query under the chosen comparison mode is returned.
pub proof fn lemma_search_complete(query: Seq<char>, contents: Seq<char>, case_sensitive: bool)
    ensures
        forall|i: int|
            0 <= i < spec_lines(contents).len() && line_pred(
                #[trigger] spec_lines(contents)[i],
                query,
                case_sensitive,
            ) ==> spec_search(query, contents, case_sensitive).contains(spec_lines(contents)[i]),
{
    lemma_filter_lines_membership(spec_lines(contents), query, case_sensitive);
}

/// Searching is deterministic: two runs of the same variant on identical
/// query and contents yield identical results in identical order.
pub proof fn lemma_search_deterministic(
    query: Seq<char>,
    contents: Seq<char>,
    case_sensitive: bool,
    r1: Seq<Seq<char>>,
    r2: Seq<Seq<char>>,
)
    requires
        r1 == spec_search(query, contents, case_sensitive),
        r2 == spec_search(query, contents, case_sensitive),
    ensures
        r1 == r2,
{
}

proof fn lemma_filter_lines_keeps_all(lines: Seq<Seq<char>>, query: Seq<char>, case_sensitive: bool)
    requires
        forall|i: int| 0 <= i < lines.len() ==> line_pred(#[trigger] lines[i], query, case_sensitive),
    ensures
        filter_lines(lines, query, case_sensitive) == lines,
    decreases lines.len(),
{
    if lines.len() == 0 {
        assert(filter_lines(lines, query, case_sensitive) =~= lines);
    } else {
        let dl = lines.drop_last();
        lemma_filter_lines_keeps_all(dl, query, case_sensitive);
        assert(lines[lines.len() - 1] == lines.last());
        assert(filter_lines(lines, query, case_sensitive) =~= lines);
    }
}

/// An empty query matches every line: both search variants return all lines
/// of the contents unchanged and in order.
pub proof fn lemma_empty_query_returns_all(
    query: Seq<char>,
    contents: Seq<char>,
    case_sensitive: bool,
)
    requires
        query.len() == 0,
    ensures
        spec_search(query, contents, case_sensitive) == spec_lines(contents),
{
    let lines = spec_lines(contents);
    assert forall|i: int| 0 <= i < lines.len() implies line_pred(
        #[trigger] lines[i],
        query,
        case_sensitive,
    ) by {
        lemma_contains_empty(lines[i], query);
        lemma_contains_empty(lower(lines[i]), lower(query));
    }
    lemma_filter_lines_keeps_all(lines, query, case_sensitive);
}

/// A line of the query's own length that differs from it anywhere, letter
/// case included, is never an exact-comparison match.
pub proof fn lemma_exact_match_rejects_changed_line(line: Seq<char>, query: Seq<char>)
    requires
        line.len() == query.len(),
        line != query,
    ensures
        !spec_contains(line, query),
{
    assert forall|i: int| 0 <= i && i + query.len() <= line.len() implies #[trigger] line.subrange(
        i,
        i + query.len(),
    ) != query by {
        assert(i == 0);
        assert(line.subrange(0, 0 + query.len() as int) =~= line);
    }
}

} // verus!
