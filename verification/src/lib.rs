//! A minimal line-oriented text search library.
//!
//! Given a query string and the full contents of a text file, the library
//! returns every line that contains the query, either with exact character
//! comparison or after lowercasing both sides. A small configuration
//! resolver derives the query, the file name and the case-sensitivity flag
//! from an argument list and the value of an environment variable.

use vstd::prelude::*;

pub mod laws;
pub mod text;

use crate::text::filter_lines;
use crate::text::line_matches;
use crate::text::lemma_line_break_at;
use crate::text::spec_lines;
use crate::text::spec_search;
use vstd::string::StrSliceExecFns;

verus! {

/// A resolved run configuration: what to search for, which file to read,
/// and whether matching compares characters exactly.
pub struct Config {
    pub query: String,
    pub filename: String,
    pub case_sensitive: bool,
}

impl Config {
    /// Builds the configuration from the argument list (program name first,
    /// then the query, then the file name) and from the value of the
    /// `CASE_INSENSITIVE` environment variable, `None` when it is unset.
    /// The variable's presence alone disables case-sensitive matching.
    pub fn new(args: Vec<String>, case_insensitive_var: Option<String>) -> (r: Result<
        Config,
        &'static str,
    >)
        ensures
            match r {
                Ok(c) => args@.len() >= 3 && c.query@ == args@[1]@ && c.filename@ == args@[2]@
                    && c.case_sensitive == (case_insensitive_var is None),
                Err(e) => args@.len() < 3 && (args@.len() < 2 ==> e@ == "didn't get a query string"@)
                    && (args@.len() == 2 ==> e@ == "didn't get a file name"@),
            },
    {
        if args.len() < 2 {
            return Err("didn't get a query string");
        }
        if args.len() < 3 {
            return Err("didn't get a file name");
        }
        let query = args[1].clone();
        let filename = args[2].clone();
        let case_sensitive = case_insensitive_var.is_none();
        Ok(Config { query, filename, case_sensitive })
    }
}

/// Returns the lines of `contents` that match `query` under the given
/// comparison mode, as slices of `contents`, in their original order.
pub fn search<'a>(query: &str, contents: &'a str, case_sensitive: bool) -> (r: Vec<&'a str>)
    ensures
        r.deep_view() == spec_search(query@, contents@, case_sensitive),
{
    let n: usize = contents.unicode_len();
    let mut result: Vec<&'a str> = Vec::new();
    let ghost full: Seq<char> = contents@;
    let ghost mut done: Seq<Seq<char>> = Seq::empty();
    let mut pos: usize = 0;
    proof {
        assert(full.subrange(0, n as int) =~= full);
        assert(done + spec_lines(full) =~= spec_lines(full));
        assert(result.deep_view() =~= filter_lines(done, query@, case_sensitive));
    }
    while pos < n
        invariant
            n as nat == full.len(),
            full == contents@,
            pos <= n,
            spec_lines(full) == done + spec_lines(full.subrange(pos as int, n as int)),
            result.deep_view() == filter_lines(done, query@, case_sensitive),
        decreases n - pos,
    {
        let ghost suffix = full.subrange(pos as int, n as int);
        let mut j: usize = pos;
        loop
            invariant
                pos <= j <= n,
                n as nat == full.len(),
                full == contents@,
                forall|k: int| pos <= k < j ==> full[k] != '\n',
            ensures
                pos <= j <= n,
                forall|k: int| pos <= k < j ==> full[k] != '\n',
                j < n ==> full[j as int] == '\n',
            decreases n - j,
        {
            if j == n {
                break ;
            }
            if contents.get_char(j) == '\n' {
                break ;
            }
            j += 1;
        }
        proof {
            assert forall|k: int| 0 <= k < j - pos implies suffix[k] != '\n' by {
                assert(suffix[k] == full[pos + k]);
            }
            if j < n {
                assert(suffix[j - pos] == full[j as int]);
            }
            lemma_line_break_at(suffix, j as int - pos as int);
        }
        let line: &'a str = contents.substring_char(pos, j);
        let matched = line_matches(line, query, case_sensitive);
        let ghost old_done = done;
        let ghost old_views = result.deep_view();
        if matched {
            result.push(line);
            proof {
                assert(result.deep_view() =~= old_views.push(line@));
            }
        }
        proof {
            assert(line@ =~= suffix.subrange(0, j - pos));
            done = old_done.push(line@);
            assert(done.drop_last() =~= old_done);
            if j < n {
                let ghost rest = full.subrange(j as int + 1, n as int);
                assert(suffix.skip(j - pos + 1) =~= rest);
                assert(spec_lines(suffix) == seq![line@] + spec_lines(rest));
                assert(old_done + (seq![line@] + spec_lines(rest)) =~= done + spec_lines(rest));
            } else {
                assert(suffix =~= line@);
                assert(spec_lines(suffix) == seq![line@]);
                assert(full.subrange(n as int, n as int) =~= Seq::<char>::empty());
                assert(spec_lines(Seq::<char>::empty()) == Seq::<Seq<char>>::empty());
                assert(old_done + seq![line@] =~= done + Seq::<Seq<char>>::empty());
            }
        }
        if j < n {
            pos = j + 1;
        } else {
            pos = j;
        }
    }
    proof {
        assert(full.subrange(n as int, n as int) =~= Seq::<char>::empty());
        assert(spec_lines(Seq::<char>::empty()) == Seq::<Seq<char>>::empty());
        assert(done + Seq::<Seq<char>>::empty() =~= done);
    }
    result
}

/// Returns the lines of `contents` that contain `query` as a contiguous
/// substring, by exact character comparison, as slices of `contents` in
/// their original order.
pub fn search_case_sensitive<'a>(query: &str, contents: &'a str) -> (r: Vec<&'a str>)
    ensures
        r.deep_view() == spec_search(query@, contents@, true),
{
    search(query, contents, true)
}

/// Returns the lines of `contents` whose lowercase form contains the
/// lowercase form of `query` as a contiguous substring. The returned slices
/// are the original lines of `contents`, not lowercased, in their original
/// order.
pub fn search_case_insensitive<'a>(query: &str, contents: &'a str) -> (r: Vec<&'a str>)
    ensures
        r.deep_view() == spec_search(query@, contents@, false),
{
    search(query, contents, false)
}

} // verus!
