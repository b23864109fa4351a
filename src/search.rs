use vstd::prelude::*;
use vstd::string::StrSliceExecFns;

verus! {

/// Where the line that starts at `i` ends: the first `'\n'` at or after `i`,
/// or the end of the text.
pub open spec fn line_end(s: Seq<char>, i: int) -> int
    decreases s.len() - i,
{
    if i >= s.len() {
        s.len() as int
    } else if s[i] == '\n' {
        i
    } else {
        line_end(s, i + 1)
    }
}

/// Where the text of the line `start .. end` stops: a `'\r'` just before
/// its `'\n'` belongs to the line ending.
pub open spec fn line_text_end(s: Seq<char>, start: int, end: int) -> int {
    if end < s.len() && end > start && s[end - 1] == '\r' {
        end - 1
    } else {
        end
    }
}

/// `q` occurs in `t` as a contiguous run.
pub open spec fn has_substring(t: Seq<char>, q: Seq<char>) -> bool {
    exists|i: int| 0 <= i <= t.len() - q.len() && #[trigger] t.subrange(i, i + q.len()) == q
}

/// The lines of `s` from position `start` on that `keep` accepts, in order.
/// Lines end at `'\n'` or `"\r\n"`; a final line ending adds no empty line.
pub open spec fn kept_lines(s: Seq<char>, start: int, keep: spec_fn(Seq<char>) -> bool) -> Seq<
    Seq<char>,
>
    decreases s.len() + 1 - start,
    via kept_lines_decreases
{
    if start < 0 || start >= s.len() {
        seq![]
    } else {
        let end = line_end(s, start);
        let line = s.subrange(start, line_text_end(s, start, end));
        let rest = kept_lines(s, end + 1, keep);
        if keep(line) {
            seq![line] + rest
        } else {
            rest
        }
    }
}

proof fn lemma_line_end(s: Seq<char>, i: int)
    requires
        0 <= i,
    ensures
        i <= line_end(s, i) <= s.len() || (i > s.len() && line_end(s, i) == s.len()),
        line_end(s, i) < s.len() ==> s[line_end(s, i)] == '\n',
        forall|k: int| i <= k < line_end(s, i) ==> s[k] != '\n',
    decreases s.len() - i,
{
    if i < s.len() && s[i] != '\n' {
        lemma_line_end(s, i + 1);
    }
}

#[via_fn]
proof fn kept_lines_decreases(s: Seq<char>, start: int, keep: spec_fn(Seq<char>) -> bool) {
    if 0 <= start < s.len() {
        lemma_line_end(s, start);
    }
}

/// The lower-case form of a text.
pub uninterp spec fn lower_of(s: Seq<char>) -> Seq<char>;

/// Relies on `str::to_lowercase`: the result depends on the characters alone.
#[verifier::external_body]
fn lowercase(s: &str) -> (r: String)
    ensures
        r@ == lower_of(s@),
{
    s.to_lowercase()
}

/// Relies on `str::chars`: the characters of a string, in order.
#[verifier::external_body]
fn chars_of(s: &str) -> (r: Vec<char>)
    ensures
        r@ == s@,
{
    s.chars().collect()
}

/// Whether `q` occurs in `t`.
fn contains_chars(t: &Vec<char>, q: &Vec<char>) -> (r: bool)
    ensures
        r == has_substring(t@, q@),
{
    if q.len() == 0 {
        assert(t@.subrange(0int, 0int + q@.len()) =~= q@);
        return true;
    }
    if q.len() > t.len() {
        return false;
    }
    let n: usize = t.len() - q.len() + 1;
    let mut i: usize = 0;
    while i < n
        invariant
            0 < q@.len() <= t@.len(),
            t@.len() <= usize::MAX,
            n == t@.len() - q@.len() + 1,
            0 <= i <= n,
            forall|k: int| 0 <= k < i ==> #[trigger] t@.subrange(k, k + q@.len()) != q@,
        decreases n - i,
    {
        let mut j: usize = 0;
        let mut same = true;
        while j < q.len()
            invariant
                0 < q@.len() <= t@.len(),
                t@.len() <= usize::MAX,
                n == t@.len() - q@.len() + 1,
                i < n,
                0 <= j <= q@.len(),
                same == forall|m: int| 0 <= m < j ==> t@[i + m] == q@[m],
            decreases q@.len() - j,
        {
            if t[i + j] != q[j] {
                same = false;
            }
            j = j + 1;
        }
        if same {
            assert(t@.subrange(i as int, i + q@.len()) =~= q@);
            return true;
        }
        assert(t@.subrange(i as int, i + q@.len()) != q@) by {
            let m = choose|m: int| 0 <= m < q@.len() && t@[i + m] != q@[m];
            assert(t@.subrange(i as int, i + q@.len())[m] != q@[m]);
        }
        i = i + 1;
    }
    false
}

/// Lines that hold the query as it is.
pub open spec fn matches_exact(q: Seq<char>) -> spec_fn(Seq<char>) -> bool {
    |line: Seq<char>| has_substring(line, q)
}

/// Lines that hold the query once both are lower-cased.
pub open spec fn matches_folded(q: Seq<char>) -> spec_fn(Seq<char>) -> bool {
    |line: Seq<char>| has_substring(lower_of(line), lower_of(q))
}

proof fn lemma_line_end_at(s: Seq<char>, i: int, end: int)
    requires
        0 <= i <= end <= s.len(),
        forall|k: int| i <= k < end ==> s[k] != '\n',
        end == s.len() || s[end] == '\n',
    ensures
        line_end(s, i) == end,
    decreases end - i,
{
    if i < end {
        lemma_line_end_at(s, i + 1, end);
    }
}

/// The lines of `content` that hold `query`, lower-cased first where
/// `fold_case` is set.
fn search_lines<'a>(query: &str, content: &'a str, fold_case: bool) -> (r: Vec<&'a str>)
    ensures
        r@.map_values(|line: &'a str| line@) == kept_lines(
            content@,
            0,
            if fold_case {
                matches_folded(query@)
            } else {
                matches_exact(query@)
            },
        ),
{
    let ghost keep = if fold_case {
        matches_folded(query@)
    } else {
        matches_exact(query@)
    };
    let q = if fold_case {
        let lowered = lowercase(query);
        chars_of(lowered.as_str())
    } else {
        chars_of(query)
    };
    let s = chars_of(content);
    let mut out: Vec<&'a str> = Vec::new();
    let mut start: usize = 0;
    while start < s.len()
        invariant
            s@ == content@,
            fold_case ==> q@ == lower_of(query@),
            !fold_case ==> q@ == query@,
            keep == (if fold_case {
                matches_folded(query@)
            } else {
                matches_exact(query@)
            }),
            0 <= start <= s@.len(),
            kept_lines(s@, 0, keep) == out@.map_values(|line: &'a str| line@) + kept_lines(
                s@,
                start as int,
                keep,
            ),
        decreases s@.len() - start,
    {
        let mut end: usize = start;
        while end < s.len() && s[end] != '\n'
            invariant
                start <= end <= s@.len(),
                forall|k: int| start <= k < end ==> s@[k] != '\n',
            decreases s@.len() - end,
        {
            end = end + 1;
        }
        proof {
            lemma_line_end_at(s@, start as int, end as int);
        }
        let text_end: usize = if end < s.len() && end > start && s[end - 1] == '\r' {
            end - 1
        } else {
            end
        };
        let line: &'a str = content.substring_char(start, text_end);
        let keep_it = if fold_case {
            let lowered = lowercase(line);
            let lc = chars_of(lowered.as_str());
            contains_chars(&lc, &q)
        } else {
            let lc = chars_of(line);
            contains_chars(&lc, &q)
        };
        let ghost before = out@;
        if keep_it {
            out.push(line);
        }
        proof {
            assert(keep_it == keep(line@));
            if keep_it {
                assert(out@.map_values(|l: &'a str| l@) =~= before.map_values(|l: &'a str| l@)
                    + seq![line@]);
            } else {
                assert(out@ == before);
            }
        }
        start = if end < s.len() {
            end + 1
        } else {
            end
        };
        proof {
            if end >= s@.len() {
                assert(kept_lines(s@, start as int, keep) == kept_lines(s@, end + 1, keep));
            }
        }
    }
    out
}

/// The lines of `content` that hold `query`, in order.
pub fn search<'a>(query: &str, content: &'a str) -> (r: Vec<&'a str>)
    ensures
        r@.map_values(|line: &'a str| line@) == kept_lines(content@, 0, matches_exact(query@)),
{
    search_lines(query, content, false)
}

/// The lines of `content` that hold `query` when both are lower-cased, in
/// order.
pub fn search_case_insensitive<'a>(query: &str, content: &'a str) -> (r: Vec<&'a str>)
    ensures
        r@.map_values(|line: &'a str| line@) == kept_lines(content@, 0, matches_folded(query@)),
{
    search_lines(query, content, true)
}

/// What to look for, where, and whether case matters.
pub struct Config {
    pub query: String,
    pub file_name: String,
    pub case_sensitive: bool,
}

impl Config {
    /// Takes the query and the file name from the second and third
    /// arguments; the first is the program's name. `case_sensitive` comes
    /// from the caller's environment.
    pub fn new(args: &[String], case_sensitive: bool) -> (r: Result<Config, &'static str>)
        ensures
            r is Err <==> args@.len() < 3,
            r matches Ok(c) ==> c.query@ == args@[1]@ && c.file_name@ == args@[2]@
                && c.case_sensitive == case_sensitive,
    {
        if args.len() < 3 {
            return Err("Less than 2 arguments");
        }
        let query = args[1].clone();
        let file_name = args[2].clone();
        Ok(Config { query, file_name, case_sensitive })
    }
}

} // verus!
