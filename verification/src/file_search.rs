//! The sidebar's file search: one matcher per query line, each matching a
//! name by substring (optionally case-sensitive and whole-word) or by
//! regex, and the highlight ranges of a name.
use vstd::prelude::*;
use core::ops::Range;
use crate::context_menu::opt_view;
use crate::find::{first_n, lemma_map_push};
use crate::sorting::{is_stable_order, keys_view, stable_order, SortKey, SortKeyView};
use crate::text::{
    ascii_lower_chars, ascii_lower_seq, chars_of, concat, first_char, find_char, is_ascii_alnum,
    is_ascii_alnum_char, lemma_utf8_len_take, occurs_at, occurs_at_exec, string_of, sub_chars, trim,
    trimmed, utf8_len, utf8_len_of,
};

verus! {

/// How a search query is read.
#[derive(Clone, Copy, Debug, PartialEq, Eq, Structural)]
pub struct DiffSearchOptions {
    pub match_case: bool,
    pub whole_word: bool,
    pub regex: bool,
}

#[verifier::external_type_specification]
#[verifier::external_body]
pub struct ExRegex(regex::Regex);

/// Whether `Regex::new` accepts the pattern, and its error message when it
/// does not.
pub uninterp spec fn regex_compile_result(pattern: Seq<char>) -> Result<(), Seq<char>>;

/// Whether the compiled pattern matches somewhere in the text.
pub uninterp spec fn regex_is_match(pattern: Seq<char>, haystack: Seq<char>) -> bool;

/// The byte ranges of the successive non-overlapping matches of the compiled
/// pattern in the text.
pub uninterp spec fn regex_find_ranges(pattern: Seq<char>, haystack: Seq<char>) -> Seq<
    (usize, usize),
>;

/// A regex together with the pattern it was compiled from. Only
/// `compile_regex` builds one, so `regex` is always `pattern` compiled.
pub struct CompiledRegex {
    pattern: String,
    regex: regex::Regex,
}

/// `regex::Regex::new`: compiles the pattern. Whether it compiles, and the
/// text of the error when it does not, depend on the pattern alone; the
/// regex syntax itself is not written out.
#[verifier::external_body]
fn regex_new(pattern: &str) -> (res: Result<regex::Regex, String>)
    ensures
        match res {
            Ok(_) => regex_compile_result(pattern@) is Ok,
            Err(e) => regex_compile_result(pattern@) == Err::<(), Seq<char>>(e@),
        },
{
    match regex::Regex::new(pattern) {
        Ok(r) => Ok(r),
        Err(e) => Err(e.to_string()),
    }
}

/// `regex::Regex::is_match` on the regex compiled from `re.pattern`.
#[verifier::external_body]
fn regex_matches(re: &CompiledRegex, haystack: &str) -> (res: bool)
    ensures
        res == regex_is_match(re.pattern@, haystack@),
{
    re.regex.is_match(haystack)
}

/// `regex::Regex::find_iter` on the regex compiled from `re.pattern`: the
/// start and end byte offsets of each match, in order.
#[verifier::external_body]
fn regex_match_ranges(re: &CompiledRegex, haystack: &str) -> (res: Vec<(usize, usize)>)
    ensures
        res@ == regex_find_ranges(re.pattern@, haystack@),
{
    re.regex.find_iter(haystack).map(|m| (m.start(), m.end())).collect()
}

fn compile_regex(pattern: String) -> (res: Result<CompiledRegex, String>)
    ensures
        match res {
            Ok(r) => regex_compile_result(pattern@) is Ok && r.pattern@ == pattern@,
            Err(e) => regex_compile_result(pattern@) == Err::<(), Seq<char>>(e@),
        },
{
    match regex_new(pattern.as_str()) {
        Ok(regex) => Ok(CompiledRegex { pattern, regex }),
        Err(e) => Err(e),
    }
}

/// The regex a query compiles to in regex mode: the query itself, between
/// word boundaries for whole-word search, case-insensitive unless the case
/// must match.
pub open spec fn regex_pattern(query: Seq<char>, options: DiffSearchOptions) -> Seq<char> {
    let body = if options.whole_word {
        "\\b(?:"@ + query + ")\\b"@
    } else {
        query
    };
    if options.match_case {
        body
    } else {
        "(?i)"@ + body
    }
}

fn regex_pattern_exec(query: &str, options: DiffSearchOptions) -> (res: String)
    ensures
        res@ == regex_pattern(query@, options),
{
    let body = if options.whole_word {
        let open = concat("\\b(?:", query);
        concat(open.as_str(), ")\\b")
    } else {
        query.to_owned()
    };
    if options.match_case {
        body
    } else {
        concat("(?i)", body.as_str())
    }
}

/// Letters, digits and `_` make up words.
pub open spec fn is_word_char(c: char) -> bool {
    is_ascii_alnum(c) || c == '_'
}

/// The text as compared: as is when case must match, else ASCII-lowercased.
pub open spec fn folded(s: Seq<char>, options: DiffSearchOptions) -> Seq<char> {
    if options.match_case {
        s
    } else {
        ascii_lower_seq(s)
    }
}

/// A literal match of the query at char `i` of the text; for whole-word
/// search no word character touches it on either side.
pub open spec fn literal_match_at(
    text: Seq<char>,
    query: Seq<char>,
    options: DiffSearchOptions,
    i: int,
) -> bool {
    &&& occurs_at(folded(text, options), folded(query, options), i)
    &&& options.whole_word ==> {
        &&& (i == 0 || !is_word_char(text[i - 1]))
        &&& (i + query.len() == text.len() || !is_word_char(text[i + query.len()]))
    }
}

/// The successive non-overlapping literal matches at or after char `pos`,
/// as char ranges.
pub open spec fn literal_hits(
    text: Seq<char>,
    query: Seq<char>,
    options: DiffSearchOptions,
    pos: int,
) -> Seq<(int, int)>
    decreases text.len() - pos,
{
    if query.len() == 0 || pos < 0 || pos + query.len() > text.len() {
        Seq::empty()
    } else if literal_match_at(text, query, options, pos) {
        seq![(pos, pos + query.len())] + literal_hits(text, query, options, pos + query.len())
    } else {
        literal_hits(text, query, options, pos + 1)
    }
}

/// A char range of the text as a byte range.
pub open spec fn byte_range(text: Seq<char>, r: (int, int)) -> (nat, nat) {
    (utf8_len(text.take(r.0)), utf8_len(text.take(r.1)))
}

/// Whether a matcher for `query` accepts the text: a regex match in regex
/// mode (none when the regex does not compile), a literal match otherwise.
pub open spec fn matcher_accepts(query: Seq<char>, options: DiffSearchOptions, text: Seq<char>) -> bool {
    if options.regex {
        match regex_compile_result(regex_pattern(query, options)) {
            Ok(_) => regex_is_match(regex_pattern(query, options), text),
            Err(_) => false,
        }
    } else {
        exists|i: int| #[trigger] literal_match_at(text, query, options, i)
    }
}

/// The byte ranges of the matches of a matcher for `query` in the text.
pub open spec fn matcher_ranges(query: Seq<char>, options: DiffSearchOptions, text: Seq<char>) -> Seq<
    (nat, nat),
> {
    if options.regex {
        match regex_compile_result(regex_pattern(query, options)) {
            Ok(_) => regex_find_ranges(regex_pattern(query, options), text).map_values(
                |r: (usize, usize)| (r.0 as nat, r.1 as nat),
            ),
            Err(_) => Seq::empty(),
        }
    } else {
        literal_hits(text, query, options, 0).map_values(|r: (int, int)| byte_range(text, r))
    }
}

pub open spec fn ranges_view(v: Seq<Range<usize>>) -> Seq<(nat, nat)> {
    v.map_values(|r: Range<usize>| (r.start as nat, r.end as nat))
}

/// Matches one query line against names.
pub struct DiffSearchMatcher {
    query: String,
    options: DiffSearchOptions,
    regex: Option<CompiledRegex>,
    regex_error: Option<String>,
}

impl DiffSearchMatcher {
    /// In regex mode the compiled pattern, or the compile error; nothing
    /// otherwise.
    #[verifier::type_invariant]
    spec fn well_formed(self) -> bool {
        if self.options.regex {
            let p = regex_pattern(self.query@, self.options);
            match regex_compile_result(p) {
                Ok(_) => self.regex matches Some(r) && r.pattern@ == p && self.regex_error is None,
                Err(e) => self.regex is None && opt_view(self.regex_error) == Some(e),
            }
        } else {
            self.regex is None && self.regex_error is None
        }
    }
}

impl View for DiffSearchMatcher {
    type V = (Seq<char>, DiffSearchOptions);

    closed spec fn view(&self) -> (Seq<char>, DiffSearchOptions) {
        (self.query@, self.options)
    }
}

fn fold_chars(s: &Vec<char>, options: DiffSearchOptions) -> (res: Vec<char>)
    ensures
        res@ == folded(s@, options),
{
    if options.match_case {
        sub_chars(s, 0, s.len())
    } else {
        ascii_lower_chars(s)
    }
}

fn is_word_char_exec(c: char) -> (res: bool)
    ensures
        res == is_word_char(c),
{
    is_ascii_alnum_char(c) || c == '_'
}

fn literal_match_at_exec(
    text: &Vec<char>,
    folded_text: &Vec<char>,
    query_len: usize,
    folded_query: &Vec<char>,
    options: DiffSearchOptions,
    i: usize,
    query: Ghost<Seq<char>>,
) -> (res: bool)
    requires
        folded_text@ == folded(text@, options),
        folded_query@ == folded(query@, options),
        query_len == query@.len(),
        i <= text@.len(),
        query_len <= text@.len() - i,
    ensures
        res == literal_match_at(text@, query@, options, i as int),
{
    assert(folded_query@.len() == query@.len());
    if !occurs_at_exec(folded_text, folded_query, i) {
        return false;
    }
    if !options.whole_word {
        return true;
    }
    let before_ok = i == 0 || !is_word_char_exec(text[i - 1]);
    let n = text.len();
    let after_ok = i + query_len == n || !is_word_char_exec(text[i + query_len]);
    before_ok && after_ok
}

/// The first `limit` literal matches, as char ranges.
fn literal_hits_exec(
    text: &Vec<char>,
    query: &Vec<char>,
    options: DiffSearchOptions,
    limit: usize,
) -> (res: Vec<(usize, usize)>)
    ensures
        res@.map_values(|r: (usize, usize)| (r.0 as int, r.1 as int)) == first_n(
            literal_hits(text@, query@, options, 0),
            limit as int,
        ),
        forall|k: int| 0 <= k < res@.len() ==> #[trigger] res@[k].1 <= text@.len(),
        forall|k: int| 0 <= k < res@.len() ==> (#[trigger] res@[k]).0 <= res@[k].1,
{
    let ghost all = literal_hits(text@, query@, options, 0);
    let folded_text = fold_chars(text, options);
    let folded_query = fold_chars(query, options);
    let n = text.len();
    let m = query.len();
    let mut out: Vec<(usize, usize)> = Vec::new();
    let mut pos: usize = 0;
    assert(out@.map_values(|r: (usize, usize)| (r.0 as int, r.1 as int)) + literal_hits(
        text@,
        query@,
        options,
        0,
    ) =~= all);
    while out.len() < limit && m > 0 && pos <= n && m <= n - pos
        invariant
            n == text@.len(),
            m == query@.len(),
            folded_text@ == folded(text@, options),
            folded_query@ == folded(query@, options),
            all == literal_hits(text@, query@, options, 0),
            out.len() <= limit,
            all == out@.map_values(|r: (usize, usize)| (r.0 as int, r.1 as int)) + literal_hits(
                text@,
                query@,
                options,
                pos as int,
            ),
            forall|k: int| 0 <= k < out@.len() ==> #[trigger] out@[k].1 <= pos,
            forall|k: int| 0 <= k < out@.len() ==> (#[trigger] out@[k]).0 <= out@[k].1,
            pos <= n,
        decreases n - pos,
    {
        let ghost before = out@;
        if literal_match_at_exec(text, &folded_text, m, &folded_query, options, pos, Ghost(query@)) {
            out.push((pos, pos + m));
            proof {
                lemma_map_push(
                    before,
                    (pos, (pos + m) as usize),
                    |r: (usize, usize)| (r.0 as int, r.1 as int),
                );
            }
            assert(all =~= out@.map_values(|r: (usize, usize)| (r.0 as int, r.1 as int))
                + literal_hits(text@, query@, options, pos + m));
            pos = pos + m;
        } else {
            pos = pos + 1;
        }
    }
    let ghost done = out@.map_values(|r: (usize, usize)| (r.0 as int, r.1 as int));
    if out.len() < limit {
        assert(literal_hits(text@, query@, options, pos as int) =~= Seq::<(int, int)>::empty());
        assert(all =~= done);
    } else {
        assert(all.take(limit as int) =~= done);
    }
    proof {
        assert forall|k: int| 0 <= k < out@.len() implies #[trigger] out@[k].1 <= text@.len() by {
            assert(out@[k].1 <= pos);
        }
    }
    out
}

/// The char ranges as byte ranges of the text.
fn to_byte_ranges(text: &Vec<char>, hits: &Vec<(usize, usize)>) -> (res: Vec<Range<usize>>)
    requires
        utf8_len(text@) <= usize::MAX,
        forall|k: int| 0 <= k < hits@.len() ==> #[trigger] hits@[k].1 <= text@.len(),
        forall|k: int| 0 <= k < hits@.len() ==> (#[trigger] hits@[k]).0 <= hits@[k].1,
    ensures
        ranges_view(res@) == hits@.map_values(|r: (usize, usize)| (r.0 as int, r.1 as int)).map_values(
            |r: (int, int)| byte_range(text@, r),
        ),
{
    let ghost target = hits@.map_values(|r: (usize, usize)| (r.0 as int, r.1 as int)).map_values(
        |r: (int, int)| byte_range(text@, r),
    );
    let mut out: Vec<Range<usize>> = Vec::new();
    let mut k: usize = 0;
    while k < hits.len()
        invariant
            k <= hits.len(),
            utf8_len(text@) <= usize::MAX,
            forall|k: int| 0 <= k < hits@.len() ==> #[trigger] hits@[k].1 <= text@.len(),
            forall|k: int| 0 <= k < hits@.len() ==> (#[trigger] hits@[k]).0 <= hits@[k].1,
            target == hits@.map_values(|r: (usize, usize)| (r.0 as int, r.1 as int)).map_values(
                |r: (int, int)| byte_range(text@, r),
            ),
            ranges_view(out@) == target.take(k as int),
        decreases hits.len() - k,
    {
        let (a, b) = hits[k];
        assert(hits@[k as int].1 <= text@.len());
        proof {
            lemma_utf8_len_take(text@, a as int);
            lemma_utf8_len_take(text@, b as int);
        }
        let prefix_a = sub_chars(text, 0, a);
        let prefix_b = sub_chars(text, 0, b);
        assert(prefix_a@ =~= text@.take(a as int));
        assert(prefix_b@ =~= text@.take(b as int));
        let start = utf8_len_of(&prefix_a);
        let end = utf8_len_of(&prefix_b);
        let ghost before = out@;
        out.push(start..end);
        proof {
            lemma_map_push(before, start..end, |r: Range<usize>| (r.start as nat, r.end as nat));
            assert(target.take(k + 1) =~= target.take(k as int).push(target[k as int]));
        }
        k += 1;
    }
    assert(target.take(target.len() as int) =~= target);
    out
}

impl DiffSearchMatcher {
    /// A matcher for `query` read with `options`.
    pub fn new(query: &str, options: DiffSearchOptions) -> (res: DiffSearchMatcher)
        ensures
            res@ == (query@, options),
    {
        if options.regex {
            let pattern = regex_pattern_exec(query, options);
            match compile_regex(pattern) {
                Ok(r) => DiffSearchMatcher {
                    query: query.to_owned(),
                    options,
                    regex: Some(r),
                    regex_error: None,
                },
                Err(e) => DiffSearchMatcher {
                    query: query.to_owned(),
                    options,
                    regex: None,
                    regex_error: Some(e),
                },
            }
        } else {
            DiffSearchMatcher { query: query.to_owned(), options, regex: None, regex_error: None }
        }
    }

    /// The compile error of a regex-mode query that is not a valid regex.
    pub fn regex_error(&self) -> (res: Option<String>)
        ensures
            opt_view(res) == (if self@.1.regex {
                match regex_compile_result(regex_pattern(self@.0, self@.1)) {
                    Ok(_) => None,
                    Err(e) => Some(e),
                }
            } else {
                None
            }),
    {
        proof {
            use_type_invariant(self);
        }
        match &self.regex_error {
            Some(e) => Some(e.clone()),
            None => None,
        }
    }

    /// Whether the text matches.
    pub fn is_match(&self, haystack: &str) -> (res: bool)
        ensures
            res == matcher_accepts(self@.0, self@.1, haystack@),
    {
        proof {
            use_type_invariant(self);
        }
        if self.options.regex {
            match &self.regex {
                Some(re) => regex_matches(re, haystack),
                None => false,
            }
        } else {
            let text = chars_of(haystack);
            let q = chars_of(self.query.as_str());
            let folded_text = fold_chars(&text, self.options);
            let folded_query = fold_chars(&q, self.options);
            let n = text.len();
            let m = q.len();
            if m > n {
                assert forall|j: int| !literal_match_at(text@, q@, self.options, j) by {
                    assert(!occurs_at(folded(text@, self.options), folded(q@, self.options), j));
                }
                return false;
            }
            let last = n - m;
            let mut i: usize = 0;
            loop
                invariant
                    !self.options.regex,
                    i <= last,
                    last == n - m,
                    n == text@.len(),
                    m == q@.len(),
                    text@ == haystack@,
                    q@ == self.query@,
                    folded_text@ == folded(text@, self.options),
                    folded_query@ == folded(q@, self.options),
                    forall|j: int| 0 <= j < i ==> !literal_match_at(text@, q@, self.options, j),
                ensures
                    forall|j: int| 0 <= j <= last ==> !literal_match_at(text@, q@, self.options, j),
                decreases last - i,
            {
                if literal_match_at_exec(&text, &folded_text, m, &folded_query, self.options, i, Ghost(q@)) {
                    assert(literal_match_at(haystack@, self.query@, self.options, i as int));
                    return true;
                }
                if i == last {
                    break;
                }
                i += 1;
            }
            assert forall|j: int| !literal_match_at(text@, q@, self.options, j) by {
                if 0 <= j <= last {
                } else {
                    assert(!occurs_at(folded(text@, self.options), folded(q@, self.options), j));
                }
            }
            false
        }
    }

    /// Replaces `out` with the byte ranges of the first `limit` matches.
    pub fn find_ranges_into(&self, haystack: &str, out: &mut Vec<Range<usize>>, limit: usize)
        requires
            utf8_len(haystack@) <= usize::MAX,
        ensures
            ranges_view(final(out)@) == first_n(
                matcher_ranges(self@.0, self@.1, haystack@),
                limit as int,
            ),
    {
        proof {
            use_type_invariant(self);
        }
        out.clear();
        if self.options.regex {
            match &self.regex {
                Some(re) => {
                    let found = regex_match_ranges(re, haystack);
                    let ghost all = found@.map_values(|r: (usize, usize)| (r.0 as nat, r.1 as nat));
                    let mut k: usize = 0;
                    while k < found.len() && k < limit
                        invariant
                            k <= found.len(),
                            k <= limit,
                            all == found@.map_values(|r: (usize, usize)| (r.0 as nat, r.1 as nat)),
                            ranges_view(out@) == all.take(k as int),
                        decreases found.len() - k,
                    {
                        let (a, b) = found[k];
                        let ghost before = out@;
                        out.push(a..b);
                        proof {
                            lemma_map_push(before, a..b, |r: Range<usize>| (r.start as nat, r.end as nat));
                            assert(all.take(k + 1) =~= all.take(k as int).push(all[k as int]));
                        }
                        k += 1;
                    }
                    if k == found.len() {
                        assert(all.take(k as int) =~= all);
                    }
                },
                None => {
                    assert(ranges_view(out@) =~= Seq::<(nat, nat)>::empty());
                },
            }
        } else {
            let text = chars_of(haystack);
            let q = chars_of(self.query.as_str());
            let hits = literal_hits_exec(&text, &q, self.options, limit);
            let ranges = to_byte_ranges(&text, &hits);
            let ghost all = literal_hits(text@, q@, self.options, 0);
            proof {
                assert(first_n(all, limit as int).map_values(|r: (int, int)| byte_range(text@, r))
                    =~= first_n(all.map_values(|r: (int, int)| byte_range(text@, r)), limit as int));
            }
            *out = ranges;
        }
    }
}

/// Each line of the query (split at `\n`), trimmed, when not empty.
pub open spec fn search_lines(query: Seq<char>) -> Seq<Seq<char>>
    decreases query.len(),
{
    match first_char(query, '\n') {
        Some(i) => if 0 <= i < query.len() {
            keep_nonempty(trim(query.take(i))) + search_lines(query.skip(i + 1))
        } else {
            Seq::empty()
        },
        None => keep_nonempty(trim(query)),
    }
}

pub open spec fn keep_nonempty(line: Seq<char>) -> Seq<Seq<char>> {
    if line.len() == 0 {
        Seq::empty()
    } else {
        seq![line]
    }
}

pub open spec fn matchers_view(ms: Seq<DiffSearchMatcher>) -> Seq<(Seq<char>, DiffSearchOptions)> {
    ms.map_values(|m: DiffSearchMatcher| m@)
}

fn push_line_matcher(
    out: &mut Vec<DiffSearchMatcher>,
    line: &Vec<char>,
    options: DiffSearchOptions,
)
    ensures
        matchers_view(final(out)@) == matchers_view(old(out)@) + keep_nonempty(trim(line@)).map_values(
            |l: Seq<char>| (l, options),
        ),
{
    let text = string_of(line);
    let t = trimmed(text.as_str());
    if t.as_str().is_empty() {
        assert(keep_nonempty(trim(line@)).map_values(|l: Seq<char>| (l, options)) =~= Seq::<
            (Seq<char>, DiffSearchOptions),
        >::empty());
        assert(matchers_view(old(out)@) + Seq::<(Seq<char>, DiffSearchOptions)>::empty()
            =~= matchers_view(old(out)@));
    } else {
        let m = DiffSearchMatcher::new(t.as_str(), options);
        let ghost before = out@;
        out.push(m);
        proof {
            lemma_map_push(before, m, |m: DiffSearchMatcher| m@);
        }
        assert(matchers_view(out@) =~= matchers_view(before) + keep_nonempty(trim(line@)).map_values(
            |l: Seq<char>| (l, options),
        ));
    }
}

/// One matcher per non-empty query line: lines are alternatives.
pub fn file_search_matchers(query: &str, options: DiffSearchOptions) -> (res: Vec<DiffSearchMatcher>)
    ensures
        matchers_view(res@) == search_lines(query@).map_values(|l: Seq<char>| (l, options)),
{
    let ghost f = |l: Seq<char>| (l, options);
    let mut rest = chars_of(query);
    let mut out: Vec<DiffSearchMatcher> = Vec::new();
    assert(matchers_view(out@) + search_lines(rest@).map_values(f) =~= search_lines(
        query@,
    ).map_values(f));
    loop
        invariant
            f == (|l: Seq<char>| (l, options)),
            matchers_view(out@) + search_lines(rest@).map_values(f) == search_lines(
                query@,
            ).map_values(f),
        decreases rest.len(),
    {
        match find_char(&rest, '\n') {
            Some(i) => {
                let line = sub_chars(&rest, 0, i);
                let n = rest.len();
                let tail = sub_chars(&rest, i + 1, n);
                assert(line@ =~= rest@.take(i as int));
                assert(tail@ =~= rest@.skip(i + 1));
                let ghost head_lines = keep_nonempty(trim(line@));
                assert(search_lines(rest@) == head_lines + search_lines(tail@));
                assert((head_lines + search_lines(tail@)).map_values(f) =~= head_lines.map_values(f)
                    + search_lines(tail@).map_values(f));
                let ghost prev = matchers_view(out@);
                push_line_matcher(&mut out, &line, options);
                assert(matchers_view(out@) + search_lines(tail@).map_values(f) =~= prev + (head_lines
                    + search_lines(tail@)).map_values(f));
                rest = tail;
            },
            None => {
                let ghost prev = matchers_view(out@);
                push_line_matcher(&mut out, &rest, options);
                assert(search_lines(rest@) == keep_nonempty(trim(rest@)));
                return out;
            },
        }
    }
}

/// Whether any matcher accepts the text.
pub fn file_search_matches(matchers: &Vec<DiffSearchMatcher>, haystack: &str) -> (res: bool)
    ensures
        res == exists|i: int|
            0 <= i < matchers@.len() && matcher_accepts(
                #[trigger] matchers@[i]@.0,
                matchers@[i]@.1,
                haystack@,
            ),
{
    let mut i: usize = 0;
    while i < matchers.len()
        invariant
            i <= matchers.len(),
            forall|j: int|
                0 <= j < i ==> !matcher_accepts(
                    #[trigger] matchers@[j]@.0,
                    matchers@[j]@.1,
                    haystack@,
                ),
        decreases matchers.len() - i,
    {
        if matchers[i].is_match(haystack) {
            return true;
        }
        i += 1;
    }
    false
}

/// Highlights at most this many matches of each query line.
pub const MAX_NAME_HIGHLIGHTS: usize = 16;

/// The ranges of all matchers in matcher order, at most
/// `MAX_NAME_HIGHLIGHTS` of each.
pub open spec fn collected_ranges(ms: Seq<(Seq<char>, DiffSearchOptions)>, text: Seq<char>) -> Seq<
    (nat, nat),
>
    decreases ms.len(),
{
    if ms.len() == 0 {
        Seq::empty()
    } else {
        collected_ranges(ms.drop_last(), text) + first_n(
            matcher_ranges(ms.last().0, ms.last().1, text),
            MAX_NAME_HIGHLIGHTS as int,
        )
    }
}

/// Ranges sorted by start then end, each joined into the previous merged
/// range when it starts inside or right at the end of it.
pub open spec fn merge_sorted(rs: Seq<(nat, nat)>) -> Seq<(nat, nat)>
    decreases rs.len(),
{
    if rs.len() == 0 {
        Seq::empty()
    } else {
        let prev = merge_sorted(rs.drop_last());
        let r = rs.last();
        if prev.len() > 0 && r.0 <= prev.last().1 {
            prev.update(
                prev.len() - 1,
                (prev.last().0, if r.1 > prev.last().1 {
                    r.1
                } else {
                    prev.last().1
                }),
            )
        } else {
            prev.push(r)
        }
    }
}

pub open spec fn range_keys(rs: Seq<(nat, nat)>) -> Seq<SortKeyView> {
    rs.map_values(|r: (nat, nat)| SortKeyView { major: r.0, minor: r.1, text: Seq::empty() })
}

/// The highlight ranges of a name: the matches of all matchers, sorted by
/// start and end (a stable order) and merged where they overlap or touch.
pub open spec fn highlight_ranges(
    ms: Seq<(Seq<char>, DiffSearchOptions)>,
    text: Seq<char>,
    out: Seq<(nat, nat)>,
) -> bool {
    let all = collected_ranges(ms, text);
    exists|order: Seq<usize>|
        #[trigger] is_stable_order(range_keys(all), order) && out == merge_sorted(
            order.map_values(|j: usize| all[j as int]),
        )
}

/// Ranges whose starts never decrease.
pub open spec fn starts_sorted(rs: Seq<(nat, nat)>) -> bool {
    forall|a: int, b: int| 0 <= a < b < rs.len() ==> #[trigger] rs[a].0 <= #[trigger] rs[b].0
}

/// Ranges that each end before the next one begins.
pub open spec fn disjoint_in_order(rs: Seq<(nat, nat)>) -> bool {
    forall|k: int| 0 <= k < rs.len() - 1 ==> #[trigger] rs[k].1 < rs[k + 1].0
}

proof fn lemma_merge_sorted_disjoint(rs: Seq<(nat, nat)>)
    requires
        starts_sorted(rs),
    ensures
        disjoint_in_order(merge_sorted(rs)),
        rs.len() > 0 ==> merge_sorted(rs).len() > 0 && merge_sorted(rs).last().0 <= rs.last().0,
    decreases rs.len(),
{
    if rs.len() > 0 {
        let prev_rs = rs.drop_last();
        assert(starts_sorted(prev_rs)) by {
            assert forall|a: int, b: int| 0 <= a < b < prev_rs.len() implies #[trigger] prev_rs[a].0
                <= #[trigger] prev_rs[b].0 by {
                assert(rs[a].0 <= rs[b].0);
            }
        }
        lemma_merge_sorted_disjoint(prev_rs);
        let prev = merge_sorted(prev_rs);
        let r = rs.last();
        if prev_rs.len() > 0 {
            assert(rs[rs.len() - 2].0 <= rs[rs.len() - 1].0);
        }
    }
}

/// Highlight ranges are sorted and never overlap or touch: each one ends
/// before the next one begins.
pub proof fn law_highlight_ranges_are_disjoint(
    ms: Seq<(Seq<char>, DiffSearchOptions)>,
    text: Seq<char>,
    out: Seq<(nat, nat)>,
)
    requires
        highlight_ranges(ms, text, out),
    ensures
        disjoint_in_order(out),
{
    let all = collected_ranges(ms, text);
    let order = choose|order: Seq<usize>|
        #[trigger] is_stable_order(range_keys(all), order) && out == merge_sorted(
            order.map_values(|j: usize| all[j as int]),
        );
    let sorted = order.map_values(|j: usize| all[j as int]);
    assert(starts_sorted(sorted)) by {
        assert forall|a: int, b: int| 0 <= a < b < sorted.len() implies #[trigger] sorted[a].0
            <= #[trigger] sorted[b].0 by {
            assert(crate::sorting::sorted_pair(range_keys(all), order[a], order[b]));
        }
    }
    lemma_merge_sorted_disjoint(sorted);
}

/// Sorted, de-overlapped match ranges across all query lines.
pub fn file_search_highlight_ranges(matchers: &Vec<DiffSearchMatcher>, name: &str) -> (res: Vec<
    Range<usize>,
>)
    requires
        utf8_len(name@) <= usize::MAX,
    ensures
        highlight_ranges(matchers_view(matchers@), name@, ranges_view(res@)),
{
    let ghost mv = matchers_view(matchers@);
    let mut ranges: Vec<Range<usize>> = Vec::new();
    let mut buf: Vec<Range<usize>> = Vec::new();
    let mut i: usize = 0;
    while i < matchers.len()
        invariant
            i <= matchers.len(),
            utf8_len(name@) <= usize::MAX,
            mv == matchers_view(matchers@),
            ranges_view(ranges@) == collected_ranges(mv.take(i as int), name@),
        decreases matchers.len() - i,
    {
        matchers[i].find_ranges_into(name, &mut buf, MAX_NAME_HIGHLIGHTS);
        let ghost prev = ranges_view(ranges@);
        let mut k: usize = 0;
        while k < buf.len()
            invariant
                k <= buf.len(),
                ranges_view(ranges@) == prev + ranges_view(buf@).take(k as int),
            decreases buf.len() - k,
        {
            let r = buf[k].start..buf[k].end;
            let ghost before = ranges@;
            ranges.push(r);
            proof {
                lemma_map_push(before, r, |r: Range<usize>| (r.start as nat, r.end as nat));
                assert(ranges_view(buf@).take(k + 1) =~= ranges_view(buf@).take(k as int).push(
                    ranges_view(buf@)[k as int],
                ));
            }
            k += 1;
        }
        proof {
            assert(ranges_view(buf@).take(buf@.len() as int) =~= ranges_view(buf@));
            assert(mv.take(i + 1).drop_last() =~= mv.take(i as int));
            assert(mv.take(i + 1).last() == matchers@[i as int]@);
        }
        i += 1;
    }
    assert(mv.take(mv.len() as int) =~= mv);
    let ghost all = ranges_view(ranges@);
    let mut keys: Vec<SortKey> = Vec::new();
    let mut k: usize = 0;
    while k < ranges.len()
        invariant
            k <= ranges.len(),
            all == ranges_view(ranges@),
            keys_view(keys@) == range_keys(all.take(k as int)),
        decreases ranges.len() - k,
    {
        let key = SortKey { major: ranges[k].start, minor: ranges[k].end, text: Vec::new() };
        let ghost before = keys@;
        keys.push(key);
        proof {
            lemma_map_push(before, key, |k: SortKey| k@);
            assert(all.take(k + 1) =~= all.take(k as int).push(all[k as int]));
            lemma_map_push(
                all.take(k as int),
                all[k as int],
                |r: (nat, nat)| SortKeyView { major: r.0, minor: r.1, text: Seq::empty() },
            );
            assert(key@.text =~= Seq::<char>::empty());
        }
        k += 1;
    }
    assert(all.take(all.len() as int) =~= all);
    let order = stable_order(&keys);
    let ghost sorted = order@.map_values(|j: usize| all[j as int]);
    let mut merged: Vec<Range<usize>> = Vec::new();
    let mut m: usize = 0;
    while m < order.len()
        invariant
            m <= order.len(),
            all == ranges_view(ranges@),
            is_stable_order(range_keys(all), order@),
            sorted == order@.map_values(|j: usize| all[j as int]),
            ranges_view(merged@) == merge_sorted(sorted.take(m as int)),
        decreases order.len() - m,
    {
        let j = order[m];
        assert(order@[m as int] < all.len());
        let start = ranges[j].start;
        let end = ranges[j].end;
        assert(sorted.take(m + 1).drop_last() =~= sorted.take(m as int));
        assert(sorted.take(m + 1).last() == (start as nat, end as nat));
        let n = merged.len();
        if n > 0 && start <= merged[n - 1].end {
            let last_start = merged[n - 1].start;
            let last_end = merged[n - 1].end;
            let new_end = if end > last_end {
                end
            } else {
                last_end
            };
            let ghost before = merged@;
            merged.set(n - 1, last_start..new_end);
            assert(ranges_view(merged@) =~= ranges_view(before).update(
                n - 1,
                (last_start as nat, new_end as nat),
            ));
        } else {
            let ghost before = merged@;
            merged.push(start..end);
            proof {
                lemma_map_push(before, start..end, |r: Range<usize>| (r.start as nat, r.end as nat));
            }
        }
        m += 1;
    }
    assert(sorted.take(sorted.len() as int) =~= sorted);
    merged
}

} // verus!
