//! Forge permalink generation.
//!
//! Turns a repository's `origin` remote URL (SSH or HTTPS) into a web URL for
//! a specific commit or file on the hosting forge (GitHub, GitLab, Bitbucket,
//! or any GitHub-style forge such as Gitea/Codeberg).
use vstd::prelude::*;
use crate::model::opt_str_view;
use crate::text::{
    after_last, ascii_lower_chars, ascii_lower_seq, before_first, chars_eq, chars_of,
    contains_char, contains_seq, find_char, find_seq, has_char, push_all, push_str, rfind_char,
    split_once_char, split_once_seq, string_of, strip_suffix, strip_suffix_chars, sub_chars,
    trim, trim_chars, trim_matches, trim_matches_chars, is_first_char, is_last_char, occurs_at,
};

verus! {

/// A configured remote.
#[derive(Clone, Debug, PartialEq, Eq)]
pub struct Remote {
    pub name: String,
    pub url: Option<String>,
}

pub struct RemoteView {
    pub name: Seq<char>,
    pub url: Option<Seq<char>>,
}

impl View for Remote {
    type V = RemoteView;

    open spec fn view(&self) -> RemoteView {
        RemoteView { name: self.name@, url: opt_str_view(self.url) }
    }
}

pub open spec fn remotes_view(r: Seq<Remote>) -> Seq<RemoteView> {
    r.map_values(|x: Remote| x@)
}

/// The forge URL shapes known.
#[derive(Clone, Copy, Debug, Eq, PartialEq, Structural)]
pub enum ForgeKind {
    GitHub,
    GitLab,
    Bitbucket,
    /// Any other host; GitHub-style `/{owner}/{repo}/…` paths are the
    /// de-facto standard shared by Gitea, Codeberg, and friends.
    Generic,
}

/// Parsed web root of a remote, e.g. `https://github.com/Auto-Explore/GitComet`.
#[derive(Debug, Eq, PartialEq)]
pub struct ForgeWebBase {
    pub kind: ForgeKind,
    pub web_root: String,
}

pub struct ForgeWebBaseView {
    pub kind: ForgeKind,
    pub web_root: Seq<char>,
}

impl View for ForgeWebBase {
    type V = ForgeWebBaseView;

    open spec fn view(&self) -> ForgeWebBaseView {
        ForgeWebBaseView { kind: self.kind, web_root: self.web_root@ }
    }
}

/// `i` is the first remote named `origin`.
pub open spec fn is_first_origin(rs: Seq<RemoteView>, i: int) -> bool {
    &&& 0 <= i < rs.len()
    &&& rs[i].name == "origin"@
    &&& forall|j: int| 0 <= j < i ==> rs[j].name != "origin"@
}

/// `i` is the first remote that has a URL.
pub open spec fn is_first_with_url(rs: Seq<RemoteView>, i: int) -> bool {
    &&& 0 <= i < rs.len()
    &&& rs[i].url is Some
    &&& forall|j: int| 0 <= j < i ==> rs[j].url is None
}

/// The remote web links are based on: `origin` when present, otherwise the
/// first remote that has a URL.
pub open spec fn origin_index(rs: Seq<RemoteView>) -> Option<int> {
    if exists|i: int| #[trigger] is_first_origin(rs, i) {
        Some(choose|i: int| #[trigger] is_first_origin(rs, i))
    } else if exists|i: int| #[trigger] is_first_with_url(rs, i) {
        Some(choose|i: int| #[trigger] is_first_with_url(rs, i))
    } else {
        None
    }
}

/// The forge a lower-cased host names.
pub open spec fn forge_kind(host: Seq<char>) -> ForgeKind {
    if host == "github.com"@ {
        ForgeKind::GitHub
    } else if host == "gitlab.com"@ {
        ForgeKind::GitLab
    } else if host == "bitbucket.org"@ {
        ForgeKind::Bitbucket
    } else {
        ForgeKind::Generic
    }
}

/// The web base for a host, a path and a scheme: the host must look like a
/// domain (or be `localhost`), the path must name `owner/repo` once `.git`
/// and surrounding slashes are dropped, and only `http`/`https` schemes are
/// kept (others become `https`).
pub open spec fn build_base_spec(host: Seq<char>, path: Seq<char>, scheme: Seq<char>) -> Option<ForgeWebBaseView> {
    let h = ascii_lower_seq(trim(host));
    let p = trim(path);
    if h.len() == 0 || (h != "localhost"@ && !has_char(h, '.')) {
        None
    } else {
        let stripped = match strip_suffix(p, ".git"@) {
            Some(x) => x,
            None => p,
        };
        let owner_repo = trim_matches(stripped, '/');
        if owner_repo.len() == 0 || !has_char(owner_repo, '/') {
            None
        } else {
            let sch = if scheme == "http"@ || scheme == "https"@ {
                scheme
            } else {
                "https"@
            };
            Some(
                ForgeWebBaseView {
                    kind: forge_kind(h),
                    web_root: sch + "://"@ + h + seq!['/'] + owner_repo,
                },
            )
        }
    }
}

/// The schemes a remote URL may use.
pub open spec fn known_scheme(s: Seq<char>) -> bool {
    s == "https"@ || s == "http"@ || s == "git"@ || s == "ssh"@ || s == "git+ssh"@
}

/// scp-like syntax `user@host:owner/repo.git`: no `://`, a `:` whose left side
/// has no `/` and whose right side has one.
pub open spec fn is_scp_like(u: Seq<char>) -> bool {
    !contains_seq(u, "://"@) && match split_once_char(u, ':') {
        Some((user_host, path)) => !has_char(user_host, '/') && has_char(path, '/'),
        None => false,
    }
}

/// The web base a remote URL points at.
pub open spec fn parse_remote_url_spec(url: Seq<char>) -> Option<ForgeWebBaseView> {
    let u = trim(url);
    if u.len() == 0 {
        None
    } else if is_scp_like(u) {
        let (user_host, path) = split_once_char(u, ':')->0;
        build_base_spec(after_last(user_host, '@'), path, "https"@)
    } else {
        match split_once_seq(u, "://"@) {
            None => None,
            Some((scheme, rest)) => {
                let s = ascii_lower_seq(scheme);
                if !known_scheme(s) {
                    None
                } else {
                    match split_once_char(after_last(rest, '@'), '/') {
                        None => None,
                        Some((host, path)) => build_base_spec(before_first(host, ':'), path, s),
                    }
                }
            },
        }
    }
}

proof fn lemma_trim_keeps(s: Seq<char>)
    requires
        s.len() > 0,
        !crate::text::is_whitespace(s[0]),
        !crate::text::is_whitespace(s.last()),
    ensures
        trim(s) == s,
{
    assert(crate::text::trim_end_len(s) == s.len());
    assert(crate::text::trim_end(s) =~= s);
    assert(crate::text::trim_start_len(s) == 0);
    assert(s.skip(0) =~= s);
}

proof fn lemma_last_exists(s: Seq<char>, c: char)
    requires
        has_char(s, c),
    ensures
        exists|i: int| is_last_char(s, c, i),
    decreases s.len(),
{
    if s.last() == c {
        assert(is_last_char(s, c, s.len() - 1));
    } else {
        let j = choose|j: int| 0 <= j < s.len() && s[j] == c;
        assert(s.drop_last()[j] == c);
        lemma_last_exists(s.drop_last(), c);
        let i = choose|i: int| is_last_char(s.drop_last(), c, i);
        assert forall|k: int| i < k < s.len() implies s[k] != c by {
            if k < s.len() - 1 {
                assert(s[k] == s.drop_last()[k]);
            }
        }
        assert(is_last_char(s, c, i));
    }
}

proof fn lemma_after_last_userinfo(user: Seq<char>, hp: Seq<char>)
    ensures
        after_last(user + seq!['@'] + hp, '@') == after_last(hp, '@'),
{
    let s = user + seq!['@'] + hp;
    let n: int = user.len() as int + 1;
    assert(s[n - 1] == '@');
    if has_char(hp, '@') {
        lemma_last_exists(hp, '@');
        let i = choose|i: int| is_last_char(hp, '@', i);
        assert(is_last_char(s, '@', n + i)) by {
            assert forall|j: int| n + i < j < s.len() implies s[j] != '@' by {
                assert(s[j] == hp[j - n]);
            }
        }
        let k = choose|k: int| is_last_char(s, '@', k);
        crate::text::lemma_last_char_unique(s, '@', k, n + i);
        let hk = choose|k: int| is_last_char(hp, '@', k);
        crate::text::lemma_last_char_unique(hp, '@', hk, i);
        assert(s.skip(n + i + 1) =~= hp.skip(i + 1));
    } else {
        assert(is_last_char(s, '@', n - 1)) by {
            assert forall|j: int| n - 1 < j < s.len() implies s[j] != '@' by {
                assert(s[j] == hp[j - n]);
            }
        }
        let k = choose|k: int| is_last_char(s, '@', k);
        crate::text::lemma_last_char_unique(s, '@', k, n - 1);
        assert(s.skip(n) =~= hp);
        assert(!exists|i: int| is_last_char(hp, '@', i));
    }
}

proof fn lemma_known_scheme_chars(scheme: Seq<char>)
    requires
        known_scheme(ascii_lower_seq(scheme)),
    ensures
        scheme.len() > 0,
        !crate::text::is_whitespace(scheme[0]),
        !has_char(scheme, ':'),
{
    reveal_strlit("https");
    reveal_strlit("http");
    reveal_strlit("git");
    reveal_strlit("ssh");
    reveal_strlit("git+ssh");
    let l = ascii_lower_seq(scheme);
    assert(l.len() == scheme.len());
    assert(l.len() >= 3);
    assert(l[0] == 'h' || l[0] == 'g' || l[0] == 's');
    assert(l[0] == crate::text::ascii_lower(scheme[0]));
    if has_char(scheme, ':') {
        let j = choose|j: int| 0 <= j < scheme.len() && scheme[j] == ':';
        assert(l[j] == crate::text::ascii_lower(scheme[j]));
        assert(l[j] == ':');
    }
}

proof fn lemma_scheme_split(scheme: Seq<char>, rest: Seq<char>)
    requires
        known_scheme(ascii_lower_seq(scheme)),
    ensures
        split_once_seq(scheme + "://"@ + rest, "://"@) == Some((scheme, rest)),
        contains_seq(scheme + "://"@ + rest, "://"@),
{
    reveal_strlit("://");
    lemma_known_scheme_chars(scheme);
    let u = scheme + "://"@ + rest;
    let n = scheme.len() as int;
    let sep = "://"@;
    assert(u.subrange(n, n + 3) =~= sep);
    assert(occurs_at(u, sep, n));
    assert forall|j: int| 0 <= j < n implies !occurs_at(u, sep, j) by {
        if occurs_at(u, sep, j) {
            assert(u.subrange(j, j + 3)[0] == ':');
            assert(u[j] == scheme[j]);
        }
    }
    assert(crate::text::is_first_occurrence(u, sep, n));
    let k = choose|k: int| #[trigger] crate::text::is_first_occurrence(u, sep, k);
    crate::text::lemma_first_occurrence_unique(u, sep, k, n);
    assert(u.take(n) =~= scheme);
    assert(u.skip(n + 3) =~= rest);
}

/// The web base of `scheme://rest` once the scheme is known.
spec fn scheme_url_base(s: Seq<char>, rest: Seq<char>) -> Option<ForgeWebBaseView> {
    match split_once_char(after_last(rest, '@'), '/') {
        None => None,
        Some((host, path)) => build_base_spec(before_first(host, ':'), path, s),
    }
}

proof fn lemma_parse_scheme_url(scheme: Seq<char>, rest: Seq<char>)
    requires
        known_scheme(ascii_lower_seq(scheme)),
        rest.len() > 0,
        !crate::text::is_whitespace(rest.last()),
    ensures
        parse_remote_url_spec(scheme + "://"@ + rest) == scheme_url_base(ascii_lower_seq(scheme), rest),
{
    reveal_strlit("://");
    lemma_known_scheme_chars(scheme);
    let u = scheme + "://"@ + rest;
    assert(u[0] == scheme[0]);
    assert(u.last() == rest.last());
    lemma_trim_keeps(u);
    lemma_scheme_split(scheme, rest);
    assert(!is_scp_like(u));
}

/// The web base of a URL with a scheme does not depend on a `user@` part in
/// front of the host: `scheme://user@host/path` links to the same place as
/// `scheme://host/path`, for every scheme a remote may use.
pub proof fn law_userinfo_does_not_change_web_base(scheme: Seq<char>, user: Seq<char>, host_path: Seq<char>)
    requires
        known_scheme(ascii_lower_seq(scheme)),
        host_path.len() > 0,
        !crate::text::is_whitespace(host_path.last()),
    ensures
        parse_remote_url_spec(scheme + "://"@ + user + "@"@ + host_path) == parse_remote_url_spec(
            scheme + "://"@ + host_path,
        ),
{
    reveal_strlit("@");
    let rest1 = user + "@"@ + host_path;
    assert(scheme + "://"@ + user + "@"@ + host_path =~= scheme + "://"@ + rest1);
    assert(rest1.last() == host_path.last());
    lemma_parse_scheme_url(scheme, rest1);
    lemma_parse_scheme_url(scheme, host_path);
    assert("@"@ =~= seq!['@']);
    lemma_after_last_userinfo(user, host_path);
}

pub open spec fn web_base_spec(rs: Seq<RemoteView>) -> Option<ForgeWebBaseView> {
    match origin_index(rs) {
        None => None,
        Some(i) => match rs[i].url {
            None => None,
            Some(u) => parse_remote_url_spec(u),
        },
    }
}

/// The digit for a nibble, upper-case.
pub open spec fn hex_digit(d: u8) -> char {
    if d < 10 {
        ((48 + d) as u8) as char
    } else {
        ((55 + d) as u8) as char
    }
}

/// RFC 3986 unreserved bytes (plus `/`).
pub open spec fn kept_byte(b: u8) -> bool {
    ||| (65 <= b && b <= 90)
    ||| (97 <= b && b <= 122)
    ||| (48 <= b && b <= 57)
    ||| b == 47
    ||| b == 45
    ||| b == 95
    ||| b == 46
    ||| b == 126
}

pub open spec fn encode_byte(b: u8) -> Seq<char> {
    if kept_byte(b) {
        seq![b as char]
    } else if b == 92 {
        seq!['/']
    } else {
        seq!['%', hex_digit(b / 16), hex_digit(b % 16)]
    }
}

/// Percent-encoding of a byte string.
pub open spec fn encode_bytes(bs: Seq<u8>) -> Seq<char>
    decreases bs.len(),
{
    if bs.len() == 0 {
        Seq::empty()
    } else {
        encode_bytes(bs.drop_last()) + encode_byte(bs.last())
    }
}

/// Percent-encode every byte outside the RFC 3986 unreserved set (plus `/`,
/// which separates path segments). Backslashes from Windows path rendering
/// are normalized to forward slashes.
pub fn encode_path(path: &str) -> (res: String)
    ensures
        res@ == encode_bytes(vstd::utf8::encode_utf8(path@)),
{
    let bytes = path.as_bytes();
    let mut out: Vec<char> = Vec::new();
    let mut i: usize = 0;
    while i < bytes.len()
        invariant
            bytes@ == vstd::utf8::encode_utf8(path@),
            i <= bytes@.len(),
            out@ == encode_bytes(bytes@.take(i as int)),
        decreases bytes@.len() - i,
    {
        let b = bytes[i];
        let ghost before = out@;
        assert(bytes@.take(i + 1).drop_last() =~= bytes@.take(i as int));
        if (65 <= b && b <= 90) || (97 <= b && b <= 122) || (48 <= b && b <= 57) || b == 47 || b
            == 45 || b == 95 || b == 46 || b == 126 {
            out.push(b as char);
        } else if b == 92 {
            out.push('/');
        } else {
            out.push('%');
            let hi = b / 16;
            let lo = b % 16;
            out.push(if hi < 10 { (48 + hi) as char } else { (55 + hi) as char });
            out.push(if lo < 10 { (48 + lo) as char } else { (55 + lo) as char });
        }
        assert(out@ =~= before + encode_byte(b));
        i += 1;
    }
    assert(bytes@.take(bytes@.len() as int) =~= bytes@);
    string_of(&out)
}

/// A character `encode_path` leaves as it is.
pub open spec fn url_char(c: char) -> bool {
    ||| ('A' <= c && c <= 'Z')
    ||| ('a' <= c && c <= 'z')
    ||| ('0' <= c && c <= '9')
    ||| c == '/'
    ||| c == '-'
    ||| c == '_'
    ||| c == '.'
    ||| c == '~'
}

pub open spec fn is_upper_hex(c: char) -> bool {
    ('0' <= c && c <= '9') || ('A' <= c && c <= 'F')
}

pub open spec fn hex_value(c: char) -> int {
    if c <= '9' {
        c as int - 48
    } else {
        c as int - 55
    }
}

/// Every character is an unreserved one (or `/`), or a `%` that starts an
/// escape of two upper-case hex digits.
pub open spec fn well_encoded(s: Seq<char>) -> bool
    decreases s.len(),
{
    if s.len() == 0 {
        true
    } else if s[0] == '%' {
        if s.len() >= 3 {
            is_upper_hex(s[1]) && is_upper_hex(s[2]) && well_encoded(s.skip(3))
        } else {
            false
        }
    } else {
        url_char(s[0]) && well_encoded(s.skip(1))
    }
}

/// Percent-decoding: each `%XY` escape gives the byte `0xXY`, every other
/// character the byte of its code.
pub open spec fn percent_decode(s: Seq<char>) -> Seq<u8>
    decreases s.len(),
{
    if s.len() == 0 {
        Seq::empty()
    } else if s[0] == '%' && s.len() >= 3 {
        seq![(hex_value(s[1]) * 16 + hex_value(s[2])) as u8] + percent_decode(s.skip(3))
    } else {
        seq![s[0] as u8] + percent_decode(s.skip(1))
    }
}

/// A byte with a backslash turned into a slash.
pub open spec fn slash_normalized(b: u8) -> u8 {
    if b == 92 {
        47
    } else {
        b
    }
}

proof fn lemma_encode_byte(b: u8)
    ensures
        well_encoded(encode_byte(b)),
        percent_decode(encode_byte(b)) == seq![slash_normalized(b)],
{
    let e = encode_byte(b);
    let empty = Seq::<char>::empty();
    assert(percent_decode(empty) == Seq::<u8>::empty());
    assert(well_encoded(empty));
    if kept_byte(b) {
        assert(e.skip(1) =~= empty);
        assert(e[0] == b as char);
        assert(e[0] != '%');
        assert((b as char) as u8 == b);
        assert(percent_decode(e) == seq![(b as char) as u8] + percent_decode(e.skip(1)));
        assert(percent_decode(e) =~= seq![b]);
    } else if b == 92 {
        assert(e.skip(1) =~= empty);
        assert(e[0] == '/');
        assert(percent_decode(e) == seq![('/' as char) as u8] + percent_decode(e.skip(1)));
        assert(percent_decode(e) =~= seq![47u8]);
    } else {
        let hi = b / 16;
        let lo = b % 16;
        assert(e.skip(3) =~= empty);
        assert(e[0] == '%' && e[1] == hex_digit(hi) && e[2] == hex_digit(lo));
        assert(hex_value(hex_digit(hi)) == hi);
        assert(hex_value(hex_digit(lo)) == lo);
        assert(hi * 16 + lo == b);
        assert(percent_decode(e) == seq![(hex_value(e[1]) * 16 + hex_value(e[2])) as u8]
            + percent_decode(e.skip(3)));
        assert(percent_decode(e) =~= seq![b]);
    }
}

proof fn lemma_encoded_append(a: Seq<char>, c: Seq<char>)
    requires
        well_encoded(a),
        well_encoded(c),
    ensures
        well_encoded(a + c),
        percent_decode(a + c) == percent_decode(a) + percent_decode(c),
    decreases a.len(),
{
    if a.len() == 0 {
        assert(a + c =~= c);
        assert(percent_decode(a) =~= Seq::<u8>::empty());
        assert(percent_decode(a) + percent_decode(c) =~= percent_decode(c));
    } else if a[0] == '%' {
        lemma_encoded_append(a.skip(3), c);
        assert((a + c).skip(3) =~= a.skip(3) + c);
        assert((a + c)[0] == '%' && (a + c)[1] == a[1] && (a + c)[2] == a[2]);
        assert(percent_decode(a + c) =~= percent_decode(a) + percent_decode(c));
    } else {
        lemma_encoded_append(a.skip(1), c);
        assert((a + c).skip(1) =~= a.skip(1) + c);
        assert((a + c)[0] == a[0]);
        assert(percent_decode(a + c) =~= percent_decode(a) + percent_decode(c));
    }
}

proof fn lemma_encode_bytes_decodes(bs: Seq<u8>)
    ensures
        well_encoded(encode_bytes(bs)),
        percent_decode(encode_bytes(bs)) == bs.map_values(|b: u8| slash_normalized(b)),
    decreases bs.len(),
{
    if bs.len() == 0 {
        assert(bs.map_values(|b: u8| slash_normalized(b)) =~= Seq::<u8>::empty());
    } else {
        let init = bs.drop_last();
        lemma_encode_bytes_decodes(init);
        lemma_encode_byte(bs.last());
        lemma_encoded_append(encode_bytes(init), encode_byte(bs.last()));
        assert(bs.map_values(|b: u8| slash_normalized(b)) =~= init.map_values(
            |b: u8| slash_normalized(b),
        ).push(slash_normalized(bs.last())));
        assert(percent_decode(encode_bytes(bs)) =~= init.map_values(|b: u8| slash_normalized(b))
            + seq![slash_normalized(bs.last())]);
    }
}

/// What `encode_path` gives is a valid URL path: only unreserved characters,
/// `/`, and `%` escapes of two upper-case hex digits; and percent-decoding it
/// gives back the path's UTF-8 bytes, with each backslash turned into `/`.
pub proof fn law_encoded_path_decodes_to_the_path(path: Seq<char>)
    ensures
        well_encoded(encode_bytes(vstd::utf8::encode_utf8(path))),
        percent_decode(encode_bytes(vstd::utf8::encode_utf8(path))) == vstd::utf8::encode_utf8(
            path,
        ).map_values(|b: u8| slash_normalized(b)),
{
    lemma_encode_bytes_decodes(vstd::utf8::encode_utf8(path));
}

fn lit_eq(v: &Vec<char>, lit: &str) -> (res: bool)
    ensures
        res == (v@ == lit@),
{
    let l = chars_of(lit);
    chars_eq(v, &l)
}

pub fn build_base(host: &str, path: &str, scheme: &str) -> (res: Option<ForgeWebBase>)
    ensures
        match res {
            Some(b) => build_base_spec(host@, path@, scheme@) == Some(b@),
            None => build_base_spec(host@, path@, scheme@) is None,
        },
{
    let h = ascii_lower_chars(&trim_chars(&chars_of(host)));
    let p = trim_chars(&chars_of(path));
    if h.len() == 0 || (!lit_eq(&h, "localhost") && !contains_char(&h, '.')) {
        return None;
    }
    let stripped = match strip_suffix_chars(&p, &chars_of(".git")) {
        Some(x) => x,
        None => p,
    };
    let owner_repo = trim_matches_chars(&stripped, '/');
    if owner_repo.len() == 0 || !contains_char(&owner_repo, '/') {
        return None;
    }
    let kind = if lit_eq(&h, "github.com") {
        ForgeKind::GitHub
    } else if lit_eq(&h, "gitlab.com") {
        ForgeKind::GitLab
    } else if lit_eq(&h, "bitbucket.org") {
        ForgeKind::Bitbucket
    } else {
        ForgeKind::Generic
    };
    let sc = chars_of(scheme);
    let mut root = if lit_eq(&sc, "http") || lit_eq(&sc, "https") {
        sc
    } else {
        chars_of("https")
    };
    push_str(&mut root, "://");
    push_all(&mut root, &h);
    root.push('/');
    push_all(&mut root, &owner_repo);
    let web_root = string_of(&root);
    proof {
        let want = build_base_spec(host@, path@, scheme@);
        assert(want->0.web_root =~= web_root@);
    }
    Some(ForgeWebBase { kind, web_root })
}

/// The pieces of `s` around its first `c`.
fn split_once_char_exec(s: &Vec<char>, c: char) -> (res: Option<(Vec<char>, Vec<char>)>)
    ensures
        match res {
            Some((a, b)) => split_once_char(s@, c) == Some((a@, b@)),
            None => split_once_char(s@, c) is None,
        },
{
    match find_char(s, c) {
        None => None,
        Some(i) => {
            assert(is_first_char(s@, c, i as int));
            let n = s.len();
            Some((sub_chars(s, 0, i), sub_chars(s, i + 1, n)))
        },
    }
}

fn after_last_exec(s: &Vec<char>, c: char) -> (res: Vec<char>)
    ensures
        res@ == after_last(s@, c),
{
    match rfind_char(s, c) {
        None => sub_chars(s, 0, s.len()),
        Some(i) => {
            assert(is_last_char(s@, c, i as int));
            let n = s.len();
            sub_chars(s, i + 1, n)
        },
    }
}

fn before_first_exec(s: &Vec<char>, c: char) -> (res: Vec<char>)
    ensures
        res@ == before_first(s@, c),
{
    match find_char(s, c) {
        None => sub_chars(s, 0, s.len()),
        Some(i) => sub_chars(s, 0, i),
    }
}

pub fn parse_remote_url(url: &str) -> (res: Option<ForgeWebBase>)
    ensures
        match res {
            Some(b) => parse_remote_url_spec(url@) == Some(b@),
            None => parse_remote_url_spec(url@) is None,
        },
{
    let u = trim_chars(&chars_of(url));
    if u.len() == 0 {
        return None;
    }
    let sep = chars_of("://");
    proof {
        reveal_strlit("://");
    }
    let has_sep = match find_seq(&u, &sep) {
        Some(_) => true,
        None => false,
    };
    if !has_sep {
        match split_once_char_exec(&u, ':') {
            Some((user_host, path)) => {
                if !contains_char(&user_host, '/') && contains_char(&path, '/') {
                    let host = after_last_exec(&user_host, '@');
                    return build_base(
                        string_of(&host).as_str(),
                        string_of(&path).as_str(),
                        "https",
                    );
                }
            },
            None => {},
        }
    }
    let (scheme, rest) = match find_seq(&u, &sep) {
        None => {
            return None;
        },
        Some(i) => {
            assert(occurs_at(u@, sep@, i as int));
            (sub_chars(&u, 0, i), sub_chars(&u, i + 3, u.len()))
        },
    };
    let s = ascii_lower_chars(&scheme);
    if !(lit_eq(&s, "https") || lit_eq(&s, "http") || lit_eq(&s, "git") || lit_eq(&s, "ssh")
        || lit_eq(&s, "git+ssh")) {
        return None;
    }
    let rest = after_last_exec(&rest, '@');
    match split_once_char_exec(&rest, '/') {
        None => None,
        Some((host, path)) => {
            let host = before_first_exec(&host, ':');
            build_base(
                string_of(&host).as_str(),
                string_of(&path).as_str(),
                string_of(&s).as_str(),
            )
        },
    }
}

/// Index of the remote web links should be based on: `origin` when present,
/// otherwise the first remote that has a URL.
fn origin_remote_index(remotes: &[Remote]) -> (res: Option<usize>)
    ensures
        match res {
            Some(i) => origin_index(remotes_view(remotes@)) == Some(i as int) && i < remotes@.len(),
            None => origin_index(remotes_view(remotes@)) is None,
        },
{
    let ghost rs = remotes_view(remotes@);
    let mut i: usize = 0;
    while i < remotes.len()
        invariant
            rs == remotes_view(remotes@),
            i <= remotes@.len(),
            forall|j: int| 0 <= j < i ==> rs[j].name != "origin"@,
        decreases remotes@.len() - i,
    {
        if lit_eq(&chars_of(remotes[i].name.as_str()), "origin") {
            assert(is_first_origin(rs, i as int));
            let ghost k = choose|k: int| #[trigger] is_first_origin(rs, k);
            assert(k == i);
            return Some(i);
        }
        i += 1;
    }
    assert(!exists|k: int| #[trigger] is_first_origin(rs, k));
    let mut i: usize = 0;
    while i < remotes.len()
        invariant
            rs == remotes_view(remotes@),
            i <= remotes@.len(),
            forall|j: int| 0 <= j < i ==> rs[j].url is None,
            !exists|k: int| #[trigger] is_first_origin(rs, k),
        decreases remotes@.len() - i,
    {
        if remotes[i].url.is_some() {
            assert(is_first_with_url(rs, i as int));
            let ghost k = choose|k: int| #[trigger] is_first_with_url(rs, k);
            assert(k == i);
            return Some(i);
        }
        i += 1;
    }
    assert(!exists|k: int| #[trigger] is_first_with_url(rs, k));
    None
}

/// The remote web links should be based on: `origin` when present, otherwise
/// the first remote that has a URL.
pub fn origin_remote(remotes: &[Remote]) -> (res: Option<&Remote>)
    ensures
        match origin_index(remotes_view(remotes@)) {
            Some(i) => res == Some(&remotes@[i]),
            None => res is None,
        },
{
    match origin_remote_index(remotes) {
        Some(i) => Some(&remotes[i]),
        None => None,
    }
}

pub fn web_base(remotes: &[Remote]) -> (res: Option<ForgeWebBase>)
    ensures
        match res {
            Some(b) => web_base_spec(remotes_view(remotes@)) == Some(b@),
            None => web_base_spec(remotes_view(remotes@)) is None,
        },
{
    let i = match origin_remote_index(remotes) {
        None => {
            return None;
        },
        Some(i) => i,
    };
    match &remotes[i].url {
        None => None,
        Some(u) => parse_remote_url(u.as_str()),
    }
}

/// The path between a forge's web root and a commit id.
pub open spec fn commit_infix(kind: ForgeKind) -> Seq<char> {
    match kind {
        ForgeKind::GitHub | ForgeKind::Generic => "/commit/"@,
        ForgeKind::GitLab => "/-/commit/"@,
        ForgeKind::Bitbucket => "/commits/"@,
    }
}

/// The path between a forge's web root and a file reference.
pub open spec fn file_infix(kind: ForgeKind) -> Seq<char> {
    match kind {
        ForgeKind::GitHub | ForgeKind::Generic => "/blob/"@,
        ForgeKind::GitLab => "/-/blob/"@,
        ForgeKind::Bitbucket => "/src/"@,
    }
}

pub open spec fn commit_permalink_spec(rs: Seq<RemoteView>, sha: Seq<char>) -> Option<Seq<char>> {
    match web_base_spec(rs) {
        None => None,
        Some(base) => if trim(sha).len() == 0 {
            None
        } else {
            Some(base.web_root + commit_infix(base.kind) + trim(sha))
        },
    }
}

pub open spec fn file_permalink_spec(rs: Seq<RemoteView>, reference: Seq<char>, path: Seq<char>) -> Option<Seq<char>> {
    match web_base_spec(rs) {
        None => None,
        Some(base) => if trim(reference).len() == 0 || trim(path).len() == 0 {
            None
        } else {
            Some(
                base.web_root + file_infix(base.kind) + trim(reference) + seq!['/'] + encode_bytes(
                    vstd::utf8::encode_utf8(trim(path)),
                ),
            )
        },
    }
}

fn infix_chars(kind: ForgeKind, file: bool) -> (res: Vec<char>)
    ensures
        res@ == if file {
            file_infix(kind)
        } else {
            commit_infix(kind)
        },
{
    match kind {
        ForgeKind::GitHub | ForgeKind::Generic => if file {
            chars_of("/blob/")
        } else {
            chars_of("/commit/")
        },
        ForgeKind::GitLab => if file {
            chars_of("/-/blob/")
        } else {
            chars_of("/-/commit/")
        },
        ForgeKind::Bitbucket => if file {
            chars_of("/src/")
        } else {
            chars_of("/commits/")
        },
    }
}

/// Web permalink for a commit, e.g.
/// `https://github.com/Auto-Explore/GitComet/commit/<sha>`.
pub fn commit_permalink(remotes: &[Remote], sha: &str) -> (res: Option<String>)
    ensures
        match res {
            Some(s) => commit_permalink_spec(remotes_view(remotes@), sha@) == Some(s@),
            None => commit_permalink_spec(remotes_view(remotes@), sha@) is None,
        },
{
    let base = match web_base(remotes) {
        None => {
            return None;
        },
        Some(b) => b,
    };
    let sha = trim_chars(&chars_of(sha));
    if sha.len() == 0 {
        return None;
    }
    let mut out = chars_of(base.web_root.as_str());
    let infix = infix_chars(base.kind, false);
    push_all(&mut out, &infix);
    push_all(&mut out, &sha);
    Some(string_of(&out))
}

/// Web permalink for a file at a given reference (commit sha or branch name),
/// e.g. `https://github.com/Auto-Explore/GitComet/blob/<ref>/src/main.rs`.
/// The path must be repository-relative; backslashes and URL-unsafe characters
/// are normalized/percent-encoded.
pub fn file_permalink(remotes: &[Remote], reference: &str, path: &str) -> (res: Option<String>)
    ensures
        match res {
            Some(s) => file_permalink_spec(remotes_view(remotes@), reference@, path@) == Some(s@),
            None => file_permalink_spec(remotes_view(remotes@), reference@, path@) is None,
        },
{
    let base = match web_base(remotes) {
        None => {
            return None;
        },
        Some(b) => b,
    };
    let reference = trim_chars(&chars_of(reference));
    let path = trim_chars(&chars_of(path));
    if reference.len() == 0 || path.len() == 0 {
        return None;
    }
    let encoded = encode_path(string_of(&path).as_str());
    let mut out = chars_of(base.web_root.as_str());
    let infix = infix_chars(base.kind, true);
    push_all(&mut out, &infix);
    push_all(&mut out, &reference);
    out.push('/');
    push_str(&mut out, encoded.as_str());
    Some(string_of(&out))
}

} // verus!
