//! The mathematical model of the search: how contents split into lines,
//! what it means for a line to contain the query, and which lines a search
//! keeps, together with the executable substring matcher.

use vstd::prelude::*;
use vstd::string::StrSliceExecFns;

verus! {

/// Index of the first newline character in `s`, or `s.len()` when `s` has none.
pub open spec fn line_break(s: Seq<char>) -> int
    decreases s.len(),
{
    if s.len() == 0 {
        0
    } else if s[0] == '\n' {
        0
    } else {
        1 + line_break(s.skip(1))
    }
}

pub proof fn lemma_line_break(s: Seq<char>)
    ensures
        0 <= line_break(s) <= s.len(),
        line_break(s) < s.len() ==> s[line_break(s)] == '\n',
        forall|k: int| 0 <= k < line_break(s) ==> s[k] != '\n',
    decreases s.len(),
{
    if s.len() == 0 {
    } else if s[0] == '\n' {
    } else {
        lemma_line_break(s.skip(1));
        if line_break(s) < s.len() {
            assert(s[line_break(s)] == s.skip(1)[line_break(s.skip(1))]);
        }
        assert forall|k: int| 0 <= k < line_break(s) implies s[k] != '\n' by {
            if k > 0 {
                assert(s[k] == s.skip(1)[k - 1]);
            }
        }
    }
}

/// `line_break` is the one index with no newline before it that either sits
/// on a newline or ends the text.
pub proof fn lemma_line_break_at(s: Seq<char>, i: int)
    requires
        0 <= i <= s.len(),
        forall|k: int| 0 <= k < i ==> s[k] != '\n',
        i < s.len() ==> s[i] == '\n',
    ensures
        line_break(s) == i,
{
    lemma_line_break(s);
    if line_break(s) < i {
        assert(s[line_break(s)] == '\n');
        assert(s[line_break(s)] != '\n');
    } else if i < line_break(s) {
        assert(s[i] != '\n');
    }
}

/// The lines of `s`: maximal runs of characters without a newline, in order.
/// A terminating newline on the last line is optional and opens no empty
/// final line; empty contents have no lines.
pub open spec fn spec_lines(s: Seq<char>) -> Seq<Seq<char>>
    decreases s.len(),
{
    if s.len() == 0 {
        Seq::empty()
    } else {
        let b = line_break(s);
        if 0 <= b < s.len() {
            seq![s.subrange(0, b)] + spec_lines(s.skip(b + 1))
        } else {
            seq![s]
        }
    }
}

/// `pat` occurs in `text` as a contiguous substring. The empty pattern
/// occurs in every text.
pub open spec fn spec_contains(text: Seq<char>, pat: Seq<char>) -> bool {
    exists|i: int| 0 <= i && i + pat.len() <= text.len() && #[trigger] text.subrange(
        i,
        i + pat.len(),
    ) == pat
}

pub proof fn lemma_contains_empty(text: Seq<char>, pat: Seq<char>)
    requires
        pat.len() == 0,
    ensures
        spec_contains(text, pat),
{
    assert(text.subrange(0, 0 + pat.len() as int) =~= pat);
}

/// The lowercase form of a nonempty string, as the standard library's
/// lowercase conversion computes it.
pub uninterp spec fn lower_of(s: Seq<char>) -> Seq<char>;

/// The lowercase form of `s`; an empty string lowercases to an empty string.
pub open spec fn lower(s: Seq<char>) -> Seq<char> {
    if s.len() == 0 {
        Seq::empty()
    } else {
        lower_of(s)
    }
}

/// Relies on str::to_lowercase: the result depends on the input characters
/// alone, and an empty string stays empty.
#[verifier::external_body]
pub(crate) fn lowercase(s: &str) -> (r: String)
    ensures
        r@ == lower(s@),
        s@.len() > 0 ==> r@ == lower_of(s@),
{
    s.to_lowercase()
}

/// Whether a search with the given comparison mode keeps `line`: exact
/// substring containment when case-sensitive, containment of the lowercase
/// query in the lowercase line otherwise.
pub open spec fn line_pred(line: Seq<char>, query: Seq<char>, case_sensitive: bool) -> bool {
    if case_sensitive {
        spec_contains(line, query)
    } else {
        spec_contains(lower(line), lower(query))
    }
}

/// The lines among `lines` that the search keeps, in their original order.
pub open spec fn filter_lines(
    lines: Seq<Seq<char>>,
    query: Seq<char>,
    case_sensitive: bool,
) -> Seq<Seq<char>>
    decreases lines.len(),
{
    if lines.len() == 0 {
        Seq::empty()
    } else {
        let rest = filter_lines(lines.drop_last(), query, case_sensitive);
        if line_pred(lines.last(), query, case_sensitive) {
            rest.push(lines.last())
        } else {
            rest
        }
    }
}

/// The full result of a search: the lines of `contents` that match `query`
/// under the given comparison mode, in their original order.
pub open spec fn spec_search(query: Seq<char>, contents: Seq<char>, case_sensitive: bool) -> Seq<
    Seq<char>,
> {
    filter_lines(spec_lines(contents), query, case_sensitive)
}

fn match_at(text: &str, pat: &str, off: usize) -> (r: bool)
    requires
        off + pat@.len() <= text@.len(),
        text@.len() <= usize::MAX,
    ensures
        r == (text@.subrange(off as int, off + pat@.len()) == pat@),
{
    let m: usize = pat.unicode_len();
    let ghost window = text@.subrange(off as int, off + pat@.len());
    let mut j: usize = 0;
    while j < m
        invariant
            j <= m,
            m as nat == pat@.len(),
            off + m <= text@.len() <= usize::MAX,
            window == text@.subrange(off as int, off + pat@.len()),
            forall|k: int| 0 <= k < j ==> text@[off + k] == pat@[k],
        decreases m - j,
    {
        if text.get_char(off + j) != pat.get_char(j) {
            proof {
                assert(window[j as int] == text@[off + j]);
            }
            return false;
        }
        j += 1;
    }
    proof {
        assert(window =~= pat@);
    }
    true
}

/// Whether `pat` occurs in `text` as a contiguous substring, by direct scan.
pub fn contains_substring(text: &str, pat: &str) -> (r: bool)
    ensures
        r == spec_contains(text@, pat@),
{
    let n: usize = text.unicode_len();
    let m: usize = pat.unicode_len();
    if m == 0 {
        proof {
            lemma_contains_empty(text@, pat@);
        }
        return true;
    }
    if m > n {
        proof {
            assert forall|i: int| 0 <= i && i + pat@.len() <= text@.len() implies #[trigger] text@.subrange(
                i,
                i + pat@.len(),
            ) != pat@ by {}
        }
        return false;
    }
    let mut i: usize = 0;
    while i <= n - m
        invariant
            1 <= m <= n,
            n as nat == text@.len(),
            m as nat == pat@.len(),
            i <= n - m + 1,
            forall|k: int| 0 <= k < i ==> #[trigger] text@.subrange(k, k + pat@.len()) != pat@,
        decreases n - m + 1 - i,
    {
        if match_at(text, pat, i) {
            return true;
        }
        i += 1;
    }
    proof {
        assert forall|k: int| 0 <= k && k + pat@.len() <= text@.len() implies #[trigger] text@.subrange(
            k,
            k + pat@.len(),
        ) != pat@ by {
            assert(k < i);
        }
    }
    false
}

/// Whether the search keeps `line`, deciding as `line_pred` says: by exact
/// containment, or by containment of the lowercased query in the lowercased
/// line.
pub fn line_matches(line: &str, query: &str, case_sensitive: bool) -> (r: bool)
    ensures
        r == line_pred(line@, query@, case_sensitive),
{
    if case_sensitive {
        contains_substring(line, query)
    } else {
        let line_low = lowercase(line);
        let query_low = lowercase(query);
        contains_substring(line_low.as_str(), query_low.as_str())
    }
}

} // verus!
