//! Character-level text helpers shared by the library.
//!
//! Strings are reasoned about through their `Seq<char>` view. The spec
//! functions here say, in the most direct form available, what the std
//! string operations used by the library compute; the executable helpers
//! compute the same on `Vec<char>` buffers and convert at the edges.
use vstd::prelude::*;
use vstd::utf8::{decode_utf8, encode_utf8, is_char_boundary};

verus! {

/// Unicode `White_Space`, the property `char::is_whitespace` and `str::trim` test.
pub open spec fn is_whitespace(c: char) -> bool {
    ||| ('\u{9}' <= c && c <= '\u{d}')
    ||| c == ' '
    ||| c == '\u{85}'
    ||| c == '\u{a0}'
    ||| c == '\u{1680}'
    ||| ('\u{2000}' <= c && c <= '\u{200a}')
    ||| c == '\u{2028}'
    ||| c == '\u{2029}'
    ||| c == '\u{202f}'
    ||| c == '\u{205f}'
    ||| c == '\u{3000}'
}

/// Number of characters that remain after trailing whitespace is removed.
pub open spec fn trim_end_len(s: Seq<char>) -> nat
    decreases s.len(),
{
    if s.len() > 0 && is_whitespace(s.last()) {
        trim_end_len(s.drop_last())
    } else {
        s.len()
    }
}

/// Number of leading whitespace characters.
pub open spec fn trim_start_len(s: Seq<char>) -> nat
    decreases s.len(),
{
    if s.len() > 0 && is_whitespace(s[0]) {
        1 + trim_start_len(s.drop_first())
    } else {
        0
    }
}

/// `str::trim_end`.
pub open spec fn trim_end(s: Seq<char>) -> Seq<char> {
    s.take(trim_end_len(s) as int)
}

/// `str::trim_start`.
pub open spec fn trim_start(s: Seq<char>) -> Seq<char> {
    s.skip(trim_start_len(s) as int)
}

/// `str::trim`.
pub open spec fn trim(s: Seq<char>) -> Seq<char> {
    trim_start(trim_end(s))
}

/// True when every character is whitespace (so `trim` leaves nothing).
pub open spec fn is_blank(s: Seq<char>) -> bool {
    forall|i: int| 0 <= i < s.len() ==> is_whitespace(#[trigger] s[i])
}

/// `char::is_ascii_uppercase`.
pub open spec fn is_ascii_upper(c: char) -> bool {
    'A' <= c && c <= 'Z'
}

/// `char::to_ascii_lowercase`.
pub open spec fn ascii_lower(c: char) -> char {
    if is_ascii_upper(c) {
        ((c as u32) + 32) as char
    } else {
        c
    }
}

/// `str::to_ascii_lowercase`.
pub open spec fn ascii_lower_seq(s: Seq<char>) -> Seq<char> {
    s.map_values(|c: char| ascii_lower(c))
}

/// `char::is_ascii_alphanumeric`.
pub open spec fn is_ascii_alnum(c: char) -> bool {
    ||| ('0' <= c && c <= '9')
    ||| ('a' <= c && c <= 'z')
    ||| ('A' <= c && c <= 'Z')
}

/// `str::eq_ignore_ascii_case`.
pub open spec fn eq_ignore_ascii_case(a: Seq<char>, b: Seq<char>) -> bool {
    ascii_lower_seq(a) == ascii_lower_seq(b)
}

/// `needle` occurs in `hay` starting at character `i`.
pub open spec fn occurs_at(hay: Seq<char>, needle: Seq<char>, i: int) -> bool {
    0 <= i && i + needle.len() <= hay.len() && hay.subrange(i, i + needle.len()) == needle
}

/// `str::contains` with a string pattern.
pub open spec fn contains_seq(hay: Seq<char>, needle: Seq<char>) -> bool {
    exists|i: int| occurs_at(hay, needle, i)
}

/// The first occurrence of `needle` is at character `i`.
pub open spec fn is_first_occurrence(hay: Seq<char>, needle: Seq<char>, i: int) -> bool {
    &&& occurs_at(hay, needle, i)
    &&& forall|j: int| 0 <= j < i ==> !occurs_at(hay, needle, j)
}

pub fn chars_of(s: &str) -> (res: Vec<char>)
    ensures
        res@ == s@,
{
    let mut out: Vec<char> = Vec::new();
    for c in it: s.chars()
        invariant
            out@ == it.seq().take(it.index() as int),
    {
        out.push(c);
    }
    out
}

/// Appends one character (`String::push`).
#[verifier::external_body]
pub(crate) fn string_push(s: &mut String, c: char)
    ensures
        final(s)@ == old(s)@.push(c),
{
    s.push(c);
}

pub fn string_of(v: &Vec<char>) -> (res: String)
    ensures
        res@ == v@,
{
    let mut s = String::new();
    let mut i: usize = 0;
    while i < v.len()
        invariant
            i <= v.len(),
            s@ == v@.take(i as int),
        decreases v.len() - i,
    {
        string_push(&mut s, v[i]);
        i += 1;
    }
    assert(v@.take(v.len() as int) =~= v@);
    s
}

/// Appends the characters of `b` to `a`.
pub fn push_all(a: &mut Vec<char>, b: &Vec<char>)
    ensures
        final(a)@ == old(a)@ + b@,
{
    let mut i: usize = 0;
    while i < b.len()
        invariant
            i <= b.len(),
            a@ == old(a)@ + b@.take(i as int),
        decreases b.len() - i,
    {
        a.push(b[i]);
        i += 1;
        assert(old(a)@ + b@.take(i as int) =~= (old(a)@ + b@.take(i - 1)).push(b@[i - 1]));
    }
    assert(b@.take(b.len() as int) =~= b@);
}

/// Appends the characters of `b` to `a`.
pub fn push_str(a: &mut Vec<char>, b: &str)
    ensures
        final(a)@ == old(a)@ + b@,
{
    let chars = chars_of(b);
    push_all(a, &chars);
}

/// `a` followed by `b`, as a `String`.
pub fn concat(a: &str, b: &str) -> (res: String)
    ensures
        res@ == a@ + b@,
{
    let mut buf = chars_of(a);
    push_str(&mut buf, b);
    string_of(&buf)
}

pub fn is_whitespace_char(c: char) -> (res: bool)
    ensures
        res == is_whitespace(c),
{
    ('\u{9}' <= c && c <= '\u{d}') || c == ' ' || c == '\u{85}' || c == '\u{a0}' || c
        == '\u{1680}' || ('\u{2000}' <= c && c <= '\u{200a}') || c == '\u{2028}' || c
        == '\u{2029}' || c == '\u{202f}' || c == '\u{205f}' || c == '\u{3000}'
}

pub fn to_ascii_lower_char(c: char) -> (res: char)
    ensures
        res == ascii_lower(c),
{
    if 'A' <= c && c <= 'Z' {
        let b = (c as u8) + 32;
        b as char
    } else {
        c
    }
}

pub fn is_ascii_alnum_char(c: char) -> (res: bool)
    ensures
        res == is_ascii_alnum(c),
{
    ('0' <= c && c <= '9') || ('a' <= c && c <= 'z') || ('A' <= c && c <= 'Z')
}

/// Length that `trim_end` keeps.
pub fn trim_end_index(s: &Vec<char>) -> (k: usize)
    ensures
        k == trim_end_len(s@),
        k <= s@.len(),
{
    let mut i = s.len();
    assert(s@.take(s.len() as int) =~= s@);
    while i > 0 && is_whitespace_char(s[i - 1])
        invariant
            i <= s.len(),
            trim_end_len(s@) == trim_end_len(s@.take(i as int)),
        decreases i,
    {
        assert(s@.take(i as int).drop_last() =~= s@.take(i - 1));
        i -= 1;
    }
    assert(s@.take(s.len() as int) =~= s@);
    i
}

/// Number of leading whitespace characters.
pub fn trim_start_index(s: &Vec<char>) -> (k: usize)
    ensures
        k == trim_start_len(s@),
        k <= s@.len(),
{
    let mut i: usize = 0;
    assert(s@.skip(0) =~= s@);
    while i < s.len() && is_whitespace_char(s[i])
        invariant
            i <= s.len(),
            trim_start_len(s@) == i + trim_start_len(s@.skip(i as int)),
        decreases s.len() - i,
    {
        assert(s@.skip(i as int).drop_first() =~= s@.skip(i + 1));
        i += 1;
    }
    i
}

pub proof fn lemma_trim_start_len_bound(s: Seq<char>)
    ensures
        trim_start_len(s) <= s.len(),
    decreases s.len(),
{
    if s.len() > 0 && is_whitespace(s[0]) {
        lemma_trim_start_len_bound(s.drop_first());
    }
}

pub proof fn lemma_trim_end_len_bound(s: Seq<char>)
    ensures
        trim_end_len(s) <= s.len(),
    decreases s.len(),
{
    if s.len() > 0 && is_whitespace(s.last()) {
        lemma_trim_end_len_bound(s.drop_last());
    }
}

/// The characters of `s[from..to]`.
pub fn sub_chars(s: &Vec<char>, from: usize, to: usize) -> (res: Vec<char>)
    requires
        from <= to <= s@.len(),
    ensures
        res@ == s@.subrange(from as int, to as int),
{
    let mut out: Vec<char> = Vec::new();
    let mut i = from;
    while i < to
        invariant
            from <= i <= to <= s@.len(),
            out@ == s@.subrange(from as int, i as int),
        decreases to - i,
    {
        out.push(s[i]);
        i += 1;
        assert(out@ =~= s@.subrange(from as int, i as int));
    }
    out
}

/// `trim_end` on a character buffer.
pub fn trim_end_chars(s: &Vec<char>) -> (res: Vec<char>)
    ensures
        res@ == trim_end(s@),
{
    let k = trim_end_index(s);
    sub_chars(s, 0, k)
}

/// `trim` on a character buffer.
pub fn trim_chars(s: &Vec<char>) -> (res: Vec<char>)
    ensures
        res@ == trim(s@),
{
    let t = trim_end_chars(s);
    let k = trim_start_index(&t);
    let n = t.len();
    sub_chars(&t, k, n)
}

/// `str::trim` as an owned string.
pub fn trimmed(s: &str) -> (res: String)
    ensures
        res@ == trim(s@),
{
    let c = chars_of(s);
    let t = trim_chars(&c);
    string_of(&t)
}

/// `str::trim_end` as an owned string.
pub fn trimmed_end(s: &str) -> (res: String)
    ensures
        res@ == trim_end(s@),
{
    let c = chars_of(s);
    let t = trim_end_chars(&c);
    string_of(&t)
}

pub proof fn lemma_blank_trim_end(s: Seq<char>)
    ensures
        is_blank(s) <==> trim_end_len(s) == 0,
    decreases s.len(),
{
    if s.len() > 0 {
        lemma_blank_trim_end(s.drop_last());
        if is_blank(s) {
            assert(is_whitespace(s[s.len() - 1]));
            assert(is_blank(s.drop_last()));
        } else if is_whitespace(s.last()) {
            let i = choose|i: int| 0 <= i < s.len() && !is_whitespace(s[i]);
            assert(i != s.len() - 1);
            assert(s.drop_last()[i] == s[i]);
        }
        if trim_end_len(s) == 0 {
            if is_whitespace(s.last()) {
                assert forall|i: int| 0 <= i < s.len() implies is_whitespace(#[trigger] s[i]) by {
                    if i < s.len() - 1 {
                        assert(s.drop_last()[i] == s[i]);
                    }
                }
            }
        }
    }
}

/// `str::trim(s).is_empty()`: the text holds nothing but whitespace.
pub proof fn lemma_trim_empty_iff_blank(s: Seq<char>)
    ensures
        trim(s).len() == 0 <==> is_blank(s),
{
    lemma_blank_trim_end(s);
    let e = trim_end(s);
    lemma_trim_end_len_bound(s);
    lemma_trim_start_len_bound(e);
    if trim_end_len(s) != 0 {
        // the last kept character is not whitespace, so trimming the start leaves it
        lemma_trim_end_last_kept(s);
        lemma_trim_start_stops_before_non_ws(e, e.len() - 1);
    }
}

proof fn lemma_trim_end_last_kept(s: Seq<char>)
    requires
        trim_end_len(s) > 0,
    ensures
        !is_whitespace(s[trim_end_len(s) - 1]),
    decreases s.len(),
{
    if s.len() > 0 && is_whitespace(s.last()) {
        lemma_trim_end_last_kept(s.drop_last());
        lemma_trim_end_len_bound(s.drop_last());
    }
}

proof fn lemma_trim_start_stops_before_non_ws(s: Seq<char>, k: int)
    requires
        0 <= k < s.len(),
        !is_whitespace(s[k]),
    ensures
        trim_start_len(s) <= k,
    decreases s.len(),
{
    if s.len() > 0 && is_whitespace(s[0]) {
        assert(k > 0);
        lemma_trim_start_stops_before_non_ws(s.drop_first(), k - 1);
    }
}

/// True when `s` holds nothing but whitespace.
pub fn is_blank_str(s: &str) -> (res: bool)
    ensures
        res == is_blank(s@),
        res == (trim(s@).len() == 0),
{
    let c = chars_of(s);
    let k = trim_end_index(&c);
    proof {
        lemma_blank_trim_end(s@);
        lemma_trim_empty_iff_blank(s@);
    }
    k == 0
}

pub fn ascii_lower_chars(s: &Vec<char>) -> (res: Vec<char>)
    ensures
        res@ == ascii_lower_seq(s@),
{
    let mut out: Vec<char> = Vec::new();
    let mut i: usize = 0;
    while i < s.len()
        invariant
            i <= s.len(),
            out@ == ascii_lower_seq(s@.take(i as int)),
        decreases s.len() - i,
    {
        let c = to_ascii_lower_char(s[i]);
        out.push(c);
        i += 1;
        assert(ascii_lower_seq(s@.take(i as int)) =~= ascii_lower_seq(s@.take(i - 1)).push(c));
    }
    assert(s@.take(s.len() as int) =~= s@);
    out
}

pub fn chars_eq(a: &Vec<char>, b: &Vec<char>) -> (res: bool)
    ensures
        res == (a@ == b@),
{
    if a.len() != b.len() {
        return false;
    }
    let mut i: usize = 0;
    while i < a.len()
        invariant
            i <= a.len() == b.len(),
            forall|j: int| 0 <= j < i ==> a@[j] == b@[j],
        decreases a.len() - i,
    {
        if a[i] != b[i] {
            return false;
        }
        i += 1;
    }
    assert(a@ =~= b@);
    true
}

/// `str::eq_ignore_ascii_case`.
pub fn eq_ignore_ascii_case_str(a: &str, b: &str) -> (res: bool)
    ensures
        res == eq_ignore_ascii_case(a@, b@),
{
    let la = ascii_lower_chars(&chars_of(a));
    let lb = ascii_lower_chars(&chars_of(b));
    chars_eq(&la, &lb)
}

/// Whether `needle` occurs in `hay` at character `i`.
pub fn occurs_at_exec(hay: &Vec<char>, needle: &Vec<char>, i: usize) -> (res: bool)
    ensures
        res == occurs_at(hay@, needle@, i as int),
{
    if i > hay.len() || needle.len() > hay.len() - i {
        return false;
    }
    let mut k: usize = 0;
    while k < needle.len()
        invariant
            i + needle.len() <= hay.len(),
            k <= needle.len(),
            forall|j: int| 0 <= j < k ==> hay@[i + j] == needle@[j],
        decreases needle.len() - k,
    {
        if hay[i + k] != needle[k] {
            assert(hay@.subrange(i as int, i + needle.len())[k as int] != needle@[k as int]);
            return false;
        }
        k += 1;
    }
    assert(hay@.subrange(i as int, i + needle.len()) =~= needle@);
    true
}

/// The character index of the first occurrence of `needle` (`str::find`).
pub fn find_chars(hay: &Vec<char>, needle: &Vec<char>) -> (res: Option<usize>)
    ensures
        match res {
            Some(i) => is_first_occurrence(hay@, needle@, i as int),
            None => !contains_seq(hay@, needle@),
        },
{
    let mut i: usize = 0;
    while i < hay.len()
        invariant
            i <= hay.len(),
            forall|j: int| 0 <= j < i ==> !occurs_at(hay@, needle@, j),
        decreases hay.len() - i,
    {
        if occurs_at_exec(hay, needle, i) {
            return Some(i);
        }
        i += 1;
    }
    if occurs_at_exec(hay, needle, i) {
        return Some(i);
    }
    assert forall|j: int| !occurs_at(hay@, needle@, j) by {
        if 0 <= j < i {
        }
    }
    None
}

/// `==` on strings.
pub fn str_eq(a: &str, b: &str) -> (res: bool)
    ensures
        res == (a@ == b@),
{
    let ca = chars_of(a);
    let cb = chars_of(b);
    chars_eq(&ca, &cb)
}


/// `i` is the first position of `c` in `s`.
pub open spec fn is_first_char(s: Seq<char>, c: char, i: int) -> bool {
    &&& 0 <= i < s.len()
    &&& s[i] == c
    &&& forall|j: int| 0 <= j < i ==> s[j] != c
}

/// `i` is the last position of `c` in `s`.
pub open spec fn is_last_char(s: Seq<char>, c: char, i: int) -> bool {
    &&& 0 <= i < s.len()
    &&& s[i] == c
    &&& forall|j: int| i < j < s.len() ==> s[j] != c
}

pub open spec fn has_char(s: Seq<char>, c: char) -> bool {
    exists|i: int| 0 <= i < s.len() && s[i] == c
}

/// The first position of `c` (`str::find` with a char pattern).
pub open spec fn first_char(s: Seq<char>, c: char) -> Option<int> {
    if exists|i: int| #[trigger] is_first_char(s, c, i) {
        Some(choose|i: int| #[trigger] is_first_char(s, c, i))
    } else {
        None
    }
}

/// The last position of `c` (`str::rfind` with a char pattern).
pub open spec fn last_char(s: Seq<char>, c: char) -> Option<int> {
    if exists|i: int| #[trigger] is_last_char(s, c, i) {
        Some(choose|i: int| #[trigger] is_last_char(s, c, i))
    } else {
        None
    }
}

/// `str::split_once` with a char pattern.
pub open spec fn split_once_char(s: Seq<char>, c: char) -> Option<(Seq<char>, Seq<char>)> {
    match first_char(s, c) {
        Some(i) => Some((s.take(i), s.skip(i + 1))),
        None => None,
    }
}

/// The text before the first `c` (`s.split(c).next()`).
pub open spec fn before_first(s: Seq<char>, c: char) -> Seq<char> {
    match first_char(s, c) {
        Some(i) => s.take(i),
        None => s,
    }
}

/// The text after the last `c` (`s.rsplit(c).next()`, `s.split(c).next_back()`).
pub open spec fn after_last(s: Seq<char>, c: char) -> Seq<char> {
    match last_char(s, c) {
        Some(i) => s.skip(i + 1),
        None => s,
    }
}

/// The first occurrence of `needle` (`str::find` with a string pattern).
pub open spec fn first_occurrence(hay: Seq<char>, needle: Seq<char>) -> Option<int> {
    if exists|i: int| #[trigger] is_first_occurrence(hay, needle, i) {
        Some(choose|i: int| #[trigger] is_first_occurrence(hay, needle, i))
    } else {
        None
    }
}

/// `str::split_once` with a string pattern.
pub open spec fn split_once_seq(s: Seq<char>, pat: Seq<char>) -> Option<(Seq<char>, Seq<char>)> {
    match first_occurrence(s, pat) {
        Some(i) => Some((s.take(i), s.skip(i + pat.len()))),
        None => None,
    }
}

/// `str::strip_suffix`.
pub open spec fn strip_suffix(s: Seq<char>, suffix: Seq<char>) -> Option<Seq<char>> {
    if suffix.len() <= s.len() && s.skip(s.len() - suffix.len()) == suffix {
        Some(s.take(s.len() - suffix.len()))
    } else {
        None
    }
}

/// Count of leading `c`.
pub open spec fn lead_count(s: Seq<char>, c: char) -> nat
    decreases s.len(),
{
    if s.len() > 0 && s[0] == c {
        1 + lead_count(s.drop_first(), c)
    } else {
        0
    }
}

/// Length kept when trailing `c` are removed.
pub open spec fn keep_before_trailing(s: Seq<char>, c: char) -> nat
    decreases s.len(),
{
    if s.len() > 0 && s.last() == c {
        keep_before_trailing(s.drop_last(), c)
    } else {
        s.len()
    }
}

/// `str::trim_matches` with a char pattern.
pub open spec fn trim_matches(s: Seq<char>, c: char) -> Seq<char> {
    let t = s.take(keep_before_trailing(s, c) as int);
    t.skip(lead_count(t, c) as int)
}

proof fn lemma_first_char_unique(s: Seq<char>, c: char, i: int, j: int)
    requires
        is_first_char(s, c, i),
        is_first_char(s, c, j),
    ensures
        i == j,
{
}

pub proof fn lemma_last_char_unique(s: Seq<char>, c: char, i: int, j: int)
    requires
        is_last_char(s, c, i),
        is_last_char(s, c, j),
    ensures
        i == j,
{
}

pub fn find_char(s: &Vec<char>, c: char) -> (res: Option<usize>)
    ensures
        match res {
            Some(i) => first_char(s@, c) == Some(i as int) && is_first_char(s@, c, i as int),
            None => first_char(s@, c) is None && !has_char(s@, c),
        },
{
    let mut i: usize = 0;
    while i < s.len()
        invariant
            i <= s.len(),
            forall|j: int| 0 <= j < i ==> s@[j] != c,
        decreases s.len() - i,
    {
        if s[i] == c {
            assert(is_first_char(s@, c, i as int));
            proof {
                lemma_first_char_unique(s@, c, i as int, choose|k: int| #[trigger] is_first_char(s@, c, k));
            }
            return Some(i);
        }
        i += 1;
    }
    None
}

pub fn rfind_char(s: &Vec<char>, c: char) -> (res: Option<usize>)
    ensures
        match res {
            Some(i) => last_char(s@, c) == Some(i as int) && is_last_char(s@, c, i as int),
            None => last_char(s@, c) is None && !has_char(s@, c),
        },
{
    let mut i: usize = s.len();
    while i > 0
        invariant
            i <= s.len(),
            forall|j: int| i <= j < s.len() ==> s@[j] != c,
        decreases i,
    {
        if s[i - 1] == c {
            assert(is_last_char(s@, c, i - 1));
            proof {
                lemma_last_char_unique(s@, c, i - 1, choose|k: int| #[trigger] is_last_char(s@, c, k));
            }
            return Some(i - 1);
        }
        i -= 1;
    }
    None
}

pub fn contains_char(s: &Vec<char>, c: char) -> (res: bool)
    ensures
        res == has_char(s@, c),
{
    match find_char(s, c) {
        Some(i) => true,
        None => false,
    }
}

pub proof fn lemma_first_occurrence_unique(hay: Seq<char>, needle: Seq<char>, i: int, j: int)
    requires
        is_first_occurrence(hay, needle, i),
        is_first_occurrence(hay, needle, j),
    ensures
        i == j,
{
}

/// `str::find` with a string pattern, tied to `first_occurrence`.
pub fn find_seq(hay: &Vec<char>, needle: &Vec<char>) -> (res: Option<usize>)
    ensures
        match res {
            Some(i) => first_occurrence(hay@, needle@) == Some(i as int) && is_first_occurrence(
                hay@,
                needle@,
                i as int,
            ),
            None => first_occurrence(hay@, needle@) is None && !contains_seq(hay@, needle@),
        },
{
    let r = find_chars(hay, needle);
    proof {
        match r {
            Some(i) => {
                lemma_first_occurrence_unique(
                    hay@,
                    needle@,
                    i as int,
                    choose|k: int| #[trigger] is_first_occurrence(hay@, needle@, k),
                );
            },
            None => {
                if exists|k: int| #[trigger] is_first_occurrence(hay@, needle@, k) {
                    let k = choose|k: int| #[trigger] is_first_occurrence(hay@, needle@, k);
                    assert(occurs_at(hay@, needle@, k));
                }
            },
        }
    }
    r
}

pub fn strip_suffix_chars(s: &Vec<char>, suffix: &Vec<char>) -> (res: Option<Vec<char>>)
    ensures
        match res {
            Some(v) => strip_suffix(s@, suffix@) == Some(v@),
            None => strip_suffix(s@, suffix@) is None,
        },
{
    if suffix.len() > s.len() {
        return None;
    }
    let start = s.len() - suffix.len();
    let tail = sub_chars(s, start, s.len());
    if chars_eq(&tail, suffix) {
        Some(sub_chars(s, 0, start))
    } else {
        None
    }
}

pub fn trim_matches_chars(s: &Vec<char>, c: char) -> (res: Vec<char>)
    ensures
        res@ == trim_matches(s@, c),
{
    let mut end = s.len();
    assert(s@.take(s.len() as int) =~= s@);
    while end > 0 && s[end - 1] == c
        invariant
            end <= s.len(),
            keep_before_trailing(s@, c) == keep_before_trailing(s@.take(end as int), c),
        decreases end,
    {
        assert(s@.take(end as int).drop_last() =~= s@.take(end - 1));
        end -= 1;
    }
    let t = sub_chars(s, 0, end);
    assert(t@ =~= s@.take(keep_before_trailing(s@, c) as int));
    let mut start: usize = 0;
    assert(t@.skip(0) =~= t@);
    while start < t.len() && t[start] == c
        invariant
            start <= t.len(),
            lead_count(t@, c) == start + lead_count(t@.skip(start as int), c),
        decreases t.len() - start,
    {
        assert(t@.skip(start as int).drop_first() =~= t@.skip(start + 1));
        start += 1;
    }
    let n = t.len();
    sub_chars(&t, start, n)
}

/// `str::to_ascii_lowercase`.
pub fn ascii_lowercase(s: &str) -> (res: String)
    ensures
        res@ == ascii_lower_seq(s@),
{
    let c = chars_of(s);
    let l = ascii_lower_chars(&c);
    string_of(&l)
}

/// The number of bytes UTF-8 takes for the text.
pub open spec fn utf8_len(s: Seq<char>) -> nat {
    encode_utf8(s).len()
}

pub proof fn lemma_utf8_len_take(s: Seq<char>, k: int)
    requires
        0 <= k <= s.len(),
    ensures
        utf8_len(s.take(k)) <= utf8_len(s),
    decreases s.len(),
{
    if k > 0 {
        assert(s.take(k).drop_first() =~= s.drop_first().take(k - 1));
        assert(s.take(k)[0] == s[0]);
        lemma_utf8_len_take(s.drop_first(), k - 1);
    } else {
        assert(s.take(0) =~= Seq::<char>::empty());
    }
}

pub proof fn lemma_utf8_len_ascii_lower(s: Seq<char>)
    ensures
        utf8_len(ascii_lower_seq(s)) == utf8_len(s),
    decreases s.len(),
{
    if s.len() > 0 {
        assert(ascii_lower_seq(s).drop_first() =~= ascii_lower_seq(s.drop_first()));
        lemma_utf8_len_ascii_lower(s.drop_first());
        let c = s[0];
        if is_ascii_upper(c) {
            assert(ascii_lower_seq(s)[0] == ascii_lower(c));
            assert(vstd::utf8::encode_scalar(c as u32).len() == 1);
            assert(vstd::utf8::encode_scalar(ascii_lower(c) as u32).len() == 1);
        } else {
            assert(ascii_lower_seq(s)[0] == c);
        }
    }
}

pub fn utf8_len_of(chars: &Vec<char>) -> (res: usize)
    requires
        utf8_len(chars@) <= usize::MAX,
    ensures
        res == utf8_len(chars@),
{
    let s = string_of(chars);
    s.as_str().len()
}

/// The first `n` bytes of `s` when they end on a character boundary, and
/// all of `s` otherwise (`str::get(..n)`, falling back to the whole text).
pub open spec fn byte_prefix_or_all(s: Seq<char>, n: int) -> Seq<char> {
    if is_char_boundary(encode_utf8(s), n) {
        decode_utf8(encode_utf8(s).subrange(0, n))
    } else {
        s
    }
}

pub fn byte_prefix_or_all_str(s: &str, n: usize) -> (res: &str)
    ensures
        res@ == byte_prefix_or_all(s@, n as int),
{
    if s.is_char_boundary(n) {
        let (head, _) = s.split_at(n);
        proof {
            vstd::utf8::encode_utf8_decode_utf8(head@);
        }
        head
    } else {
        s
    }
}

/// `str::split` with a char pattern: the pieces between the occurrences of
/// `c`, in order (one piece when `c` does not occur).
pub open spec fn split_char(s: Seq<char>, c: char) -> Seq<Seq<char>>
    decreases s.len(),
{
    match first_char(s, c) {
        Some(i) => if 0 <= i < s.len() {
            seq![s.take(i)] + split_char(s.skip(i + 1), c)
        } else {
            seq![s]
        },
        None => seq![s],
    }
}

pub open spec fn pieces_view(v: Seq<Vec<char>>) -> Seq<Seq<char>> {
    v.map_values(|p: Vec<char>| p@)
}

pub fn split_char_exec(s: &Vec<char>, c: char) -> (res: Vec<Vec<char>>)
    ensures
        pieces_view(res@) == split_char(s@, c),
{
    let n = s.len();
    let mut rest = sub_chars(s, 0, n);
    assert(rest@ =~= s@);
    let mut out: Vec<Vec<char>> = Vec::new();
    assert(pieces_view(out@) + split_char(rest@, c) =~= split_char(s@, c));
    loop
        invariant
            pieces_view(out@) + split_char(rest@, c) == split_char(s@, c),
        decreases rest.len(),
    {
        match find_char(&rest, c) {
            Some(i) => {
                let m = rest.len();
                let piece = sub_chars(&rest, 0, i);
                let tail = sub_chars(&rest, i + 1, m);
                assert(piece@ =~= rest@.take(i as int));
                assert(tail@ =~= rest@.skip(i + 1));
                assert(split_char(rest@, c) == seq![piece@] + split_char(tail@, c));
                let ghost before = out@;
                out.push(piece);
                assert(pieces_view(out@) =~= pieces_view(before).push(piece@));
                assert(pieces_view(out@) + split_char(tail@, c) =~= pieces_view(before) + (seq![piece@]
                    + split_char(tail@, c)));
                rest = tail;
            },
            None => {
                let ghost before = out@;
                let ghost last = rest@;
                assert(split_char(rest@, c) == seq![last]);
                out.push(rest);
                assert(pieces_view(out@) =~= pieces_view(before).push(last));
                assert(pieces_view(out@) =~= pieces_view(before) + seq![last]);
                return out;
            },
        }
    }
}

pub proof fn lemma_split_char_nonempty(s: Seq<char>, c: char)
    ensures
        split_char(s, c).len() >= 1,
    decreases s.len(),
{
    match first_char(s, c) {
        Some(i) => if 0 <= i < s.len() {
            lemma_split_char_nonempty(s.skip(i + 1), c);
        },
        None => {},
    }
}

/// Drops one trailing carriage return.
pub open spec fn strip_cr(l: Seq<char>) -> Seq<char> {
    if l.len() > 0 && l.last() == '\r' {
        l.drop_last()
    } else {
        l
    }
}

/// `str::lines`: the pieces between newlines; a line a newline ends loses
/// the `\r` of a `\r\n`, and an empty piece after the last newline is no
/// line.
pub open spec fn lines_spec(s: Seq<char>) -> Seq<Seq<char>> {
    let p = split_char(s, '\n');
    let body = p.drop_last().map_values(|l: Seq<char>| strip_cr(l));
    if p.last().len() == 0 {
        body
    } else {
        body.push(p.last())
    }
}

fn strip_cr_exec(l: &Vec<char>) -> (res: Vec<char>)
    ensures
        res@ == strip_cr(l@),
{
    let n = l.len();
    if n > 0 && l[n - 1] == '\r' {
        let r = sub_chars(l, 0, n - 1);
        assert(r@ =~= l@.drop_last());
        r
    } else {
        let r = sub_chars(l, 0, n);
        assert(r@ =~= l@);
        r
    }
}

/// The lines of a text, as `str::lines` splits them.
pub fn lines_exec(s: &Vec<char>) -> (res: Vec<Vec<char>>)
    ensures
        pieces_view(res@) == lines_spec(s@),
{
    let pieces = split_char_exec(s, '\n');
    let ghost p = split_char(s@, '\n');
    proof {
        lemma_split_char_nonempty(s@, '\n');
    }
    let n = pieces.len();
    let mut out: Vec<Vec<char>> = Vec::new();
    let mut k: usize = 0;
    while k + 1 < n
        invariant
            n == pieces@.len(),
            n >= 1,
            k < n,
            p == pieces_view(pieces@),
            pieces_view(out@) == p.take(k as int).map_values(|l: Seq<char>| strip_cr(l)),
        decreases n - k,
    {
        let line = strip_cr_exec(&pieces[k]);
        let ghost before = out@;
        out.push(line);
        proof {
            assert(pieces_view(pieces@)[k as int] == pieces@[k as int]@);
            assert(p.take(k + 1) =~= p.take(k as int).push(p[k as int]));
            assert(pieces_view(out@) =~= pieces_view(before).push(line@));
            assert(p.take(k + 1).map_values(|l: Seq<char>| strip_cr(l)) =~= p.take(k as int).map_values(
                |l: Seq<char>| strip_cr(l),
            ).push(strip_cr(p[k as int])));
        }
        k += 1;
    }
    assert(p.take(k as int) =~= p.drop_last());
    let last = &pieces[n - 1];
    assert(pieces_view(pieces@)[n - 1] == last@);
    if last.len() > 0 {
        let l2 = sub_chars(last, 0, last.len());
        assert(l2@ =~= last@);
        let ghost before = out@;
        out.push(l2);
        assert(pieces_view(out@) =~= pieces_view(before).push(l2@));
    }
    out
}

/// The full Unicode lowercase mapping of a text, as `str::to_lowercase`
/// computes it.
pub uninterp spec fn unicode_lowercase(s: Seq<char>) -> Seq<char>;

/// `str::to_lowercase`. Its result is the Unicode lowercase mapping of the
/// text and depends on the text alone; the mapping itself is not written out.
#[verifier::external_body]
pub(crate) fn to_lowercase(s: &str) -> (res: String)
    ensures
        res@ == unicode_lowercase(s@),
{
    s.to_lowercase()
}

} // verus!
