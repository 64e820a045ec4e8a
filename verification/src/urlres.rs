//! URL resolution: resolving a possibly-relative href against a board's
//! base URL, extracting a URL's domain, and checking that a base URL is
//! well formed enough to resolve against.

use vstd::prelude::*;

use crate::text::occurs_at;

verus! {

/// First position at or after `i` where `pat` occurs in `s`.
pub open spec fn find_from(s: Seq<char>, pat: Seq<char>, i: int) -> Option<int>
    decreases s.len() - i + 1,
{
    if i < 0 {
        None
    } else if i + pat.len() > s.len() {
        None
    } else if occurs_at(s, pat, i) {
        Some(i)
    } else {
        find_from(s, pat, i + 1)
    }
}

/// A found position is a real occurrence at or after the start index.
pub proof fn lemma_find_some(s: Seq<char>, pat: Seq<char>, i: int)
    requires
        find_from(s, pat, i) is Some,
    ensures
        occurs_at(s, pat, find_from(s, pat, i)->0),
        i <= find_from(s, pat, i)->0,
    decreases s.len() - i + 1,
{
    if !(i < 0 || i + pat.len() > s.len() || occurs_at(s, pat, i)) {
        lemma_find_some(s, pat, i + 1);
    }
}

/// Find the first occurrence of `pat` in `s`.
pub fn find_sub(s: &str, pat: &str) -> (r: Option<usize>)
    ensures
        match r {
            Some(k) => find_from(s@, pat@, 0) == Some(k as int),
            None => find_from(s@, pat@, 0) is None,
        },
{
    let n: usize = s.unicode_len();
    let m: usize = pat.unicode_len();
    if m == 0 {
        assert(s@.subrange(0, 0) =~= pat@);
        return Some(0);
    }
    if m > n {
        return None;
    }
    let mut i: usize = 0;
    while i <= n - m
        invariant
            i <= n,
            1 <= m <= n,
            n == s@.len(),
            m == pat@.len(),
            find_from(s@, pat@, 0) == find_from(s@, pat@, i as int),
        decreases n - i,
    {
        if crate::text::match_at(s, pat, i) {
            return Some(i);
        }
        i = i + 1;
    }
    None
}

/// First position at or after `i` where the character `c` stands in `s`.
pub open spec fn find_char_from(s: Seq<char>, c: char, i: int) -> Option<int>
    decreases s.len() - i,
{
    if i < 0 {
        None
    } else if i >= s.len() {
        None
    } else if s[i] == c {
        Some(i)
    } else {
        find_char_from(s, c, i + 1)
    }
}

/// A found character position is in range and holds the character.
pub proof fn lemma_find_char_some(s: Seq<char>, c: char, i: int)
    requires
        find_char_from(s, c, i) is Some,
    ensures
        i <= find_char_from(s, c, i)->0 < s.len(),
        s[find_char_from(s, c, i)->0] == c,
    decreases s.len() - i,
{
    if !(i < 0 || i >= s.len() || s[i] == c) {
        lemma_find_char_some(s, c, i + 1);
    }
}

/// Find the first occurrence of a character at or after `start`.
pub fn find_char(s: &str, c: char, start: usize) -> (r: Option<usize>)
    requires
        start <= s@.len(),
    ensures
        match r {
            Some(k) => find_char_from(s@, c, start as int) == Some(k as int),
            None => find_char_from(s@, c, start as int) is None,
        },
{
    let n: usize = s.unicode_len();
    let mut i: usize = start;
    while i < n
        invariant
            start <= i <= n,
            n == s@.len(),
            find_char_from(s@, c, start as int) == find_char_from(s@, c, i as int),
        decreases n - i,
    {
        if s.get_char(i) == c {
            return Some(i);
        }
        i = i + 1;
    }
    None
}

/// Last position at or before `i` where the character `c` stands in `s`.
pub open spec fn rfind_char_from(s: Seq<char>, c: char, i: int) -> Option<int>
    decreases i + 1,
{
    if i < 0 || i >= s.len() {
        None
    } else if s[i] == c {
        Some(i)
    } else {
        rfind_char_from(s, c, i - 1)
    }
}

/// Find the last occurrence of a character.
pub fn rfind_char(s: &str, c: char) -> (r: Option<usize>)
    ensures
        match r {
            Some(k) => rfind_char_from(s@, c, s@.len() - 1) == Some(k as int),
            None => rfind_char_from(s@, c, s@.len() - 1) is None,
        },
{
    let n: usize = s.unicode_len();
    let mut i: usize = n;
    while i > 0
        invariant
            i <= n,
            n == s@.len(),
            rfind_char_from(s@, c, n - 1) == rfind_char_from(s@, c, i - 1),
        decreases i,
    {
        if s.get_char(i - 1) == c {
            return Some(i - 1);
        }
        i = i - 1;
    }
    None
}

/// A last-found character position is in range and holds the character.
pub proof fn lemma_rfind_char_some(s: Seq<char>, c: char, i: int)
    requires
        rfind_char_from(s, c, i) is Some,
    ensures
        0 <= rfind_char_from(s, c, i)->0 <= i,
        rfind_char_from(s, c, i)->0 < s.len(),
        s[rfind_char_from(s, c, i)->0] == c,
    decreases i + 1,
{
    if !(i < 0 || i >= s.len() || s[i] == c) {
        lemma_rfind_char_some(s, c, i - 1);
    }
}

/// `s` with every trailing `/` removed.
pub open spec fn strip_slashes_spec(s: Seq<char>) -> Seq<char>
    decreases s.len(),
{
    if s.len() > 0 && s.last() == '/' {
        strip_slashes_spec(s.drop_last())
    } else {
        s
    }
}

proof fn lemma_strip_slashes_take(s: Seq<char>, b: int)
    requires
        0 <= b <= s.len(),
        forall|j: int| b <= j < s.len() ==> s[j] == '/',
        b == 0 || s[b - 1] != '/',
    ensures
        strip_slashes_spec(s) == s.take(b),
    decreases s.len() - b,
{
    if b == s.len() {
        assert(s.take(b) =~= s);
    } else {
        lemma_strip_slashes_take(s.drop_last(), b);
        assert(s.drop_last().take(b) =~= s.take(b));
    }
}

/// Remove every trailing `/` from a string.
pub fn strip_trailing_slashes(s: &str) -> (r: String)
    ensures
        r@ == strip_slashes_spec(s@),
{
    let n: usize = s.unicode_len();
    let mut b: usize = n;
    while b > 0 && s.get_char(b - 1) == '/'
        invariant
            b <= n,
            n == s@.len(),
            forall|j: int| b <= j < n ==> s@[j] == '/',
        decreases b,
    {
        b = b - 1;
    }
    proof {
        lemma_strip_slashes_take(s@, b as int);
        assert(s@.subrange(0, b as int) =~= s@.take(b as int));
    }
    String::from_str(s.substring_char(0, b))
}

/// Position just past a URL's scheme-and-authority part: the first `/`
/// after the `://` separator, if both are present.
pub open spec fn domain_end(base: Seq<char>) -> Option<int> {
    match find_from(base, "://"@, 0) {
        Some(k) => find_char_from(base, '/', k + 3),
        None => None,
    }
}

/// A domain-absolute href appended to the base's scheme-and-authority;
/// if the base has no path, its trailing slashes are dropped and the
/// href appended directly.
pub open spec fn abs_path_spec(base: Seq<char>, href: Seq<char>) -> Seq<char> {
    match domain_end(base) {
        Some(j) => base.take(j) + href,
        None => strip_slashes_spec(base) + href,
    }
}

/// A relative href appended to the base's directory: the base up to and
/// including its final `/`, or — when the base has no path separator
/// after its scheme — the whole base plus a trailing `/`.
pub open spec fn rel_path_spec(base: Seq<char>, href: Seq<char>) -> Seq<char> {
    if base.len() > 0 && base.last() == '/' {
        base + href
    } else {
        let start = match find_from(base, "://"@, 0) {
            Some(k) => k + 3,
            None => 0,
        };
        match rfind_char_from(base, '/', base.len() - 1) {
            Some(idx) => if idx >= start {
                base.take(idx + 1) + href
            } else {
                base + seq!['/'] + href
            },
            None => base + seq!['/'] + href,
        }
    }
}

/// Resolution of a possibly-relative href against a base URL: an href
/// with an absolute scheme is returned unchanged, one starting with `/`
/// is domain-absolute, anything else is relative to the base directory.
pub open spec fn url_resolve_spec(base: Seq<char>, href: Seq<char>) -> Seq<char> {
    if occurs_at(href, "http://"@, 0) || occurs_at(href, "https://"@, 0) {
        href
    } else if href.len() > 0 && href[0] == '/' {
        abs_path_spec(base, href)
    } else {
        rel_path_spec(base, href)
    }
}

/// Resolve a potentially relative URL against a base URL.
pub fn resolve(base: &str, href: &str) -> (r: String)
    ensures
        r@ == url_resolve_spec(base@, href@),
{
    if crate::text::match_at(href, "http://", 0) || crate::text::match_at(href, "https://", 0) {
        return href.to_owned();
    }
    if href.unicode_len() > 0 && href.get_char(0) == '/' {
        return resolve_absolute_path(base, href);
    }
    resolve_relative_path(base, href)
}

/// Combine a domain-absolute href with the base URL's domain.
pub fn resolve_absolute_path(base: &str, href: &str) -> (r: String)
    ensures
        r@ == abs_path_spec(base@, href@),
{
    let n: usize = base.unicode_len();
    match find_sub(base, "://") {
        Some(k) => {
            proof {
                lemma_find_some(base@, "://"@, 0);
                reveal_strlit("://");
                assert(k + 3 <= n);
            }
            match find_char(base, '/', k + 3) {
                Some(j) => {
                    proof {
                        lemma_find_char_some(base@, '/', k + 3);
                        assert(base@.subrange(0, j as int) =~= base@.take(j as int));
                    }
                    let mut out = String::from_str(base.substring_char(0, j));
                    out.append(href);
                    out
                },
                None => {
                    let mut out = strip_trailing_slashes(base);
                    out.append(href);
                    out
                },
            }
        },
        None => {
            let mut out = strip_trailing_slashes(base);
            out.append(href);
            out
        },
    }
}

/// Combine a relative href with the base URL's directory.
pub fn resolve_relative_path(base: &str, href: &str) -> (r: String)
    ensures
        r@ == rel_path_spec(base@, href@),
{
    let n: usize = base.unicode_len();
    if n > 0 && base.get_char(n - 1) == '/' {
        let mut out = base.to_owned();
        out.append(href);
        return out;
    }
    let start: usize = match find_sub(base, "://") {
        Some(k) => {
            proof {
                lemma_find_some(base@, "://"@, 0);
                reveal_strlit("://");
                assert(k + 3 <= n);
            }
            k + 3
        },
        None => 0,
    };
    match rfind_char(base, '/') {
        Some(idx) => {
            if idx >= start {
                proof {
                    lemma_rfind_char_some(base@, '/', base@.len() - 1);
                    assert(base@.subrange(0, idx + 1) =~= base@.take(idx + 1));
                }
                let mut out = String::from_str(base.substring_char(0, idx + 1));
                out.append(href);
                out
            } else {
                let mut out = base.to_owned();
                out.append("/");
                out.append(href);
                proof {
                    reveal_strlit("/");
                    assert("/"@ =~= seq!['/']);
                }
                out
            }
        },
        None => {
            let mut out = base.to_owned();
            out.append("/");
            out.append(href);
            proof {
                reveal_strlit("/");
                assert("/"@ =~= seq!['/']);
            }
            out
        },
    }
}

/// Resolve a potentially relative URL against a base URL given as a
/// string.
pub fn resolve_url(base: &str, href: &str) -> (r: String)
    ensures
        r@ == url_resolve_spec(base@, href@),
{
    resolve(base, href)
}

/// The lowercase form of a string, as the standard library's Unicode
/// lowercase mapping defines it.
pub uninterp spec fn lower_of(s: Seq<char>) -> Seq<char>;

/// Relies on str::to_lowercase: the result depends on the characters of
/// the input alone.
#[verifier::external_body]
fn lowercase(s: &str) -> (r: String)
    ensures
        r@ == lower_of(s@),
{
    s.to_lowercase()
}

/// The domain of a URL, lowercased: the part between `://` and the next
/// `/`, if the separator is present at all.
pub open spec fn get_domain_spec(u: Seq<char>) -> Option<Seq<char>> {
    match find_from(u, "://"@, 0) {
        None => None,
        Some(k) => Some(
            lower_of(
                match find_char_from(u, '/', k + 3) {
                    Some(j) => u.subrange(k + 3, j),
                    None => u.skip(k + 3),
                },
            ),
        ),
    }
}

/// Extract the lowercased domain from a URL.
pub fn get_domain(url: &str) -> (r: Option<String>)
    ensures
        match r {
            Some(d) => get_domain_spec(url@) == Some(d@),
            None => get_domain_spec(url@) is None,
        },
{
    let n: usize = url.unicode_len();
    match find_sub(url, "://") {
        None => None,
        Some(k) => {
            proof {
                lemma_find_some(url@, "://"@, 0);
                reveal_strlit("://");
                assert(k + 3 <= n);
            }
            let start: usize = k + 3;
            let dom = match find_char(url, '/', start) {
                Some(j) => {
                    proof {
                        lemma_find_char_some(url@, '/', start as int);
                    }
                    url.substring_char(start, j)
                },
                None => {
                    let r = url.substring_char(start, url.unicode_len());
                    assert(r@ =~= url@.skip(start as int));
                    r
                },
            };
            Some(lowercase(dom))
        },
    }
}

/// A base URL is well formed when it has a non-empty scheme, the `://`
/// separator, and at least one character after it.
pub open spec fn url_well_formed_spec(u: Seq<char>) -> bool {
    match find_from(u, "://"@, 0) {
        Some(k) => 1 <= k && k + 3 < u.len(),
        None => false,
    }
}

/// Check that a board's URL is well formed enough to resolve against.
pub fn url_well_formed(u: &str) -> (r: bool)
    ensures
        r == url_well_formed_spec(u@),
{
    let n: usize = u.unicode_len();
    match find_sub(u, "://") {
        Some(k) => {
            proof {
                lemma_find_some(u@, "://"@, 0);
                reveal_strlit("://");
                assert(k + 3 <= n);
            }
            k >= 1 && k + 3 < n
        },
        None => false,
    }
}

} // verus!
