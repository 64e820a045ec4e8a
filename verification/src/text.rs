//! The text-cleaning pipeline: whitespace normalization, ordered
//! pattern removal, ordered pair replacement, and trimming, applied to
//! every extracted string.

use vstd::prelude::*;

use crate::config::CleaningConfig;
use crate::config::Replacement;

verus! {

/// The whitespace characters that normalization collapses: the ASCII
/// space, tab, line feed, carriage return, vertical tab and form feed.
pub open spec fn is_wspace(c: char) -> bool {
    c == ' ' || c == '\t' || c == '\n' || c == '\r' || c == '\u{000B}' || c == '\u{000C}'
}

/// Exec test for `is_wspace`.
pub fn wspace(c: char) -> (r: bool)
    ensures
        r == is_wspace(c),
{
    c == ' ' || c == '\t' || c == '\n' || c == '\r' || c == '\u{000B}' || c == '\u{000C}'
}

/// `pat` occurs in `s` starting at position `i`.
pub open spec fn occurs_at(s: Seq<char>, pat: Seq<char>, i: int) -> bool {
    0 <= i && i + pat.len() <= s.len() && s.subrange(i, i + pat.len()) == pat
}

/// `pat` occurs somewhere in `s`.
pub open spec fn occurs(s: Seq<char>, pat: Seq<char>) -> bool {
    exists|i: int| occurs_at(s, pat, i)
}

/// Exec test for `occurs_at`.
pub fn match_at(s: &str, pat: &str, i: usize) -> (r: bool)
    requires
        i <= s@.len(),
    ensures
        r == occurs_at(s@, pat@, i as int),
{
    let n: usize = s.unicode_len();
    let m: usize = pat.unicode_len();
    if m > n - i {
        assert(!occurs_at(s@, pat@, i as int));
        return false;
    }
    let mut k: usize = 0;
    while k < m
        invariant
            k <= m,
            i + m <= n,
            n == s@.len(),
            m == pat@.len(),
            forall|j: int| 0 <= j < k ==> s@[i + j] == pat@[j],
        decreases m - k,
    {
        if s.get_char(i + k) != pat.get_char(k) {
            assert(!occurs_at(s@, pat@, i as int)) by {
                if occurs_at(s@, pat@, i as int) {
                    assert(s@.subrange(i as int, i + pat@.len())[k as int] == pat@[k as int]);
                }
            }
            return false;
        }
        k = k + 1;
    }
    assert(s@.subrange(i as int, i + pat@.len()) =~= pat@);
    true
}

/// The normalized form of the first `i` characters of `s`: whitespace
/// runs collapsed to one ASCII space, leading and trailing whitespace
/// dropped.
pub open spec fn norm_ws_prefix(s: Seq<char>, i: int) -> Seq<char>
    decreases i,
{
    if i <= 0 || i > s.len() {
        Seq::<char>::empty()
    } else {
        let prev = norm_ws_prefix(s, i - 1);
        let c = s[i - 1];
        if is_wspace(c) {
            prev
        } else if prev.len() > 0 && is_wspace(s[i - 2]) {
            prev + seq![' ', c]
        } else {
            prev + seq![c]
        }
    }
}

/// Whitespace normalization of a whole string.
pub open spec fn norm_ws_spec(s: Seq<char>) -> Seq<char> {
    norm_ws_prefix(s, s.len() as int)
}

/// Collapse every run of whitespace into a single ASCII space and trim
/// the ends.
pub fn normalize_whitespace(s: &str) -> (r: String)
    ensures
        r@ == norm_ws_spec(s@),
{
    let n: usize = s.unicode_len();
    let mut out = String::new();
    let mut i: usize = 0;
    while i < n
        invariant
            i <= n,
            n == s@.len(),
            out@ == norm_ws_prefix(s@, i as int),
        decreases n - i,
    {
        let c = s.get_char(i);
        if !wspace(c) {
            if out.unicode_len() > 0 && wspace(s.get_char(i - 1)) {
                out.append(" ");
                proof {
                    reveal_strlit(" ");
                }
            }
            let piece = s.substring_char(i, i + 1);
            out.append(piece);
            assert(piece@ =~= seq![s@[i as int]]);
        }
        assert(out@ == norm_ws_prefix(s@, i + 1));
        i = i + 1;
    }
    out
}

/// Drop leading whitespace.
pub open spec fn trim_front(s: Seq<char>) -> Seq<char>
    decreases s.len(),
{
    if s.len() > 0 && is_wspace(s[0]) {
        trim_front(s.drop_first())
    } else {
        s
    }
}

/// Drop trailing whitespace.
pub open spec fn trim_back(s: Seq<char>) -> Seq<char>
    decreases s.len(),
{
    if s.len() > 0 && is_wspace(s.last()) {
        trim_back(s.drop_last())
    } else {
        s
    }
}

/// Drop whitespace from both ends.
pub open spec fn trim_spec(s: Seq<char>) -> Seq<char> {
    trim_back(trim_front(s))
}

proof fn lemma_trim_front_skip(s: Seq<char>, a: int)
    requires
        0 <= a <= s.len(),
        forall|j: int| 0 <= j < a ==> is_wspace(s[j]),
        a == s.len() || !is_wspace(s[a]),
    ensures
        trim_front(s) == s.skip(a),
    decreases a,
{
    if a == 0 {
        assert(s.skip(0) =~= s);
    } else {
        assert(is_wspace(s[0]));
        lemma_trim_front_skip(s.drop_first(), a - 1);
        assert(s.drop_first().skip(a - 1) =~= s.skip(a));
    }
}

proof fn lemma_trim_back_take(s: Seq<char>, b: int)
    requires
        0 <= b <= s.len(),
        forall|j: int| b <= j < s.len() ==> is_wspace(s[j]),
        b == 0 || !is_wspace(s[b - 1]),
    ensures
        trim_back(s) == s.take(b),
    decreases s.len() - b,
{
    if b == s.len() {
        assert(s.take(b) =~= s);
    } else {
        assert(is_wspace(s.last()));
        lemma_trim_back_take(s.drop_last(), b);
        assert(s.drop_last().take(b) =~= s.take(b));
    }
}

/// Trim whitespace from both ends of a string.
pub fn trim(s: &str) -> (r: String)
    ensures
        r@ == trim_spec(s@),
{
    let n: usize = s.unicode_len();
    let mut a: usize = 0;
    while a < n && wspace(s.get_char(a))
        invariant
            a <= n,
            n == s@.len(),
            forall|j: int| 0 <= j < a ==> is_wspace(s@[j]),
        decreases n - a,
    {
        a = a + 1;
    }
    if a == n {
        proof {
            lemma_trim_front_skip(s@, n as int);
            assert(s@.skip(n as int) =~= Seq::<char>::empty());
        }
        return String::new();
    }
    let mut b: usize = n;
    while b > a && wspace(s.get_char(b - 1))
        invariant
            a <= b <= n,
            n == s@.len(),
            !is_wspace(s@[a as int]),
            forall|j: int| b <= j < n ==> is_wspace(s@[j]),
        decreases b,
    {
        b = b - 1;
    }
    let piece = s.substring_char(a, b);
    proof {
        lemma_trim_front_skip(s@, a as int);
        assert(b > a);
        lemma_trim_back_take(s@.skip(a as int), b - a);
        assert(s@.skip(a as int).take(b - a) =~= s@.subrange(a as int, b as int));
    }
    String::from_str(piece)
}

/// Replace every occurrence of `from` in `s` with `to`, scanning left to
/// right over non-overlapping occurrences. An empty `from` leaves `s`
/// unchanged.
pub open spec fn replace_all_spec(s: Seq<char>, from: Seq<char>, to: Seq<char>) -> Seq<char>
    decreases s.len(),
{
    if from.len() == 0 {
        s
    } else if s.len() < from.len() {
        s
    } else if s.subrange(0, from.len() as int) == from {
        to + replace_all_spec(s.skip(from.len() as int), from, to)
    } else {
        seq![s[0]] + replace_all_spec(s.skip(1), from, to)
    }
}

/// Replace every occurrence of `from` with `to`.
pub fn replace_all(s: &str, from: &str, to: &str) -> (r: String)
    ensures
        r@ == replace_all_spec(s@, from@, to@),
{
    let n: usize = s.unicode_len();
    let m: usize = from.unicode_len();
    if m == 0 {
        return s.to_owned();
    }
    let mut out = String::new();
    let mut i: usize = 0;
    proof {
        assert(s@.skip(0) =~= s@);
        assert(Seq::<char>::empty() + replace_all_spec(s@, from@, to@) =~= replace_all_spec(
            s@,
            from@,
            to@,
        ));
    }
    while i < n
        invariant
            i <= n,
            n == s@.len(),
            m == from@.len(),
            m >= 1,
            replace_all_spec(s@, from@, to@) == out@ + replace_all_spec(
                s@.skip(i as int),
                from@,
                to@,
            ),
        decreases n - i,
    {
        let ghost suffix = s@.skip(i as int);
        if match_at(s, from, i) {
            out.append(to);
            proof {
                assert(suffix.subrange(0, m as int) =~= s@.subrange(i as int, i + m));
                assert(suffix.skip(m as int) =~= s@.skip(i + m));
            }
            i = i + m;
        } else {
            let piece = s.substring_char(i, i + 1);
            out.append(piece);
            proof {
                assert(piece@ =~= seq![s@[i as int]]);
                if suffix.len() >= m {
                    assert(suffix.subrange(0, m as int) =~= s@.subrange(i as int, i + m));
                    assert(suffix.subrange(0, m as int) != from@);
                    assert(suffix[0] == s@[i as int]);
                    assert(suffix.skip(1) =~= s@.skip(i + 1));
                } else {
                    assert(replace_all_spec(suffix, from@, to@) == suffix);
                    assert(suffix =~= seq![s@[i as int]] + s@.skip(i + 1));
                    assert(replace_all_spec(s@.skip(i + 1), from@, to@) == s@.skip(i + 1));
                }
            }
            i = i + 1;
        }
    }
    proof {
        assert(s@.skip(n as int) =~= Seq::<char>::empty());
        assert(out@ + Seq::<char>::empty() =~= out@);
    }
    out
}

/// Apply each removal pattern in order: every occurrence of the pattern
/// is removed.
pub open spec fn remove_chain(s: Seq<char>, pats: Seq<Seq<char>>) -> Seq<char>
    decreases pats.len(),
{
    if pats.len() == 0 {
        s
    } else {
        remove_chain(replace_all_spec(s, pats[0], Seq::<char>::empty()), pats.drop_first())
    }
}

/// Apply each replacement pair in order.
pub open spec fn replace_chain(s: Seq<char>, reps: Seq<(Seq<char>, Seq<char>)>) -> Seq<char>
    decreases reps.len(),
{
    if reps.len() == 0 {
        s
    } else {
        replace_chain(replace_all_spec(s, reps[0].0, reps[0].1), reps.drop_first())
    }
}

/// The whole cleaning pipeline: normalize whitespace, remove each
/// pattern in order, apply each replacement in order, trim the ends.
pub open spec fn clean_spec(
    s: Seq<char>,
    removes: Seq<Seq<char>>,
    reps: Seq<(Seq<char>, Seq<char>)>,
) -> Seq<char> {
    trim_spec(replace_chain(remove_chain(norm_ws_spec(s), removes), reps))
}

/// Clean a string with the given removal patterns and replacement pairs.
pub fn clean(s: &str, removes: &Vec<String>, reps: &Vec<Replacement>) -> (r: String)
    ensures
        r@ == clean_spec(s@, crate::config::str_views(removes@), crate::config::rep_views(reps@)),
{
    let ghost pats = crate::config::str_views(removes@);
    let ghost pairs = crate::config::rep_views(reps@);
    let mut cur = normalize_whitespace(s);
    let mut k: usize = 0;
    proof {
        assert(pats.skip(0) =~= pats);
    }
    while k < removes.len()
        invariant
            k <= removes@.len(),
            pats == crate::config::str_views(removes@),
            pairs == crate::config::rep_views(reps@),
            remove_chain(norm_ws_spec(s@), pats) == remove_chain(cur@, pats.skip(k as int)),
        decreases removes@.len() - k,
    {
        cur = replace_all(cur.as_str(), removes[k].as_str(), "");
        proof {
            reveal_strlit("");
            assert(""@ =~= Seq::<char>::empty());
            assert(pats.skip(k as int)[0] == pats[k as int]);
            assert(pats.skip(k as int).drop_first() =~= pats.skip(k + 1));
        }
        k = k + 1;
    }
    assert(pats.skip(removes@.len() as int) =~= Seq::<Seq<char>>::empty());
    let ghost mid = remove_chain(norm_ws_spec(s@), pats);
    let mut j: usize = 0;
    proof {
        assert(pairs.skip(0) =~= pairs);
    }
    while j < reps.len()
        invariant
            j <= reps@.len(),
            pairs == crate::config::rep_views(reps@),
            replace_chain(mid, pairs) == replace_chain(cur@, pairs.skip(j as int)),
        decreases reps@.len() - j,
    {
        cur = replace_all(cur.as_str(), reps[j].from.as_str(), reps[j].to.as_str());
        proof {
            assert(pairs.skip(j as int)[0] == pairs[j as int]);
            assert(pairs.skip(j as int).drop_first() =~= pairs.skip(j + 1));
        }
        j = j + 1;
    }
    assert(pairs.skip(reps@.len() as int) =~= Seq::<(Seq<char>, Seq<char>)>::empty());
    trim(cur.as_str())
}

/// Clean a title: normalization, the title removal patterns, and a trim.
pub fn clean_title(s: &str, config: &CleaningConfig) -> (r: String)
    ensures
        r@ == clean_spec(
            s@,
            crate::config::str_views(config.title_remove_patterns@),
            Seq::<(Seq<char>, Seq<char>)>::empty(),
        ),
{
    let empty_reps: Vec<Replacement> = Vec::new();
    let r = clean(s, &config.title_remove_patterns, &empty_reps);
    proof {
        assert(crate::config::rep_views(empty_reps@) =~= Seq::<(Seq<char>, Seq<char>)>::empty());
    }
    r
}

/// Clean a date: normalization, the date removal patterns, the date
/// replacement pairs, and a trim.
pub fn clean_date(s: &str, config: &CleaningConfig) -> (r: String)
    ensures
        r@ == clean_spec(
            s@,
            crate::config::str_views(config.date_remove_patterns@),
            crate::config::rep_views(config.date_replacements@),
        ),
{
    clean(s, &config.date_remove_patterns, &config.date_replacements)
}

/// The notice display template with its five placeholders substituted,
/// in a fixed order.
pub open spec fn format_notice_spec(
    template: Seq<char>,
    dept_name: Seq<char>,
    board_name: Seq<char>,
    title: Seq<char>,
    date: Seq<char>,
    link: Seq<char>,
) -> Seq<char> {
    replace_all_spec(
        replace_all_spec(
            replace_all_spec(
                replace_all_spec(replace_all_spec(template, "{dept_name}"@, dept_name), "{board_name}"@, board_name),
                "{title}"@,
                title,
            ),
            "{date}"@,
            date,
        ),
        "{link}"@,
        link,
    )
}

/// Substitute a notice's fields into a display template.
pub fn format_notice(
    format: &str,
    dept_name: &str,
    board_name: &str,
    title: &str,
    date: &str,
    link: &str,
) -> (r: String)
    ensures
        r@ == format_notice_spec(format@, dept_name@, board_name@, title@, date@, link@),
{
    let r = replace_all(format, "{dept_name}", dept_name);
    let r = replace_all(r.as_str(), "{board_name}", board_name);
    let r = replace_all(r.as_str(), "{title}", title);
    let r = replace_all(r.as_str(), "{date}", date);
    replace_all(r.as_str(), "{link}", link)
}

proof fn lemma_not_occurs_skip(s: Seq<char>, pat: Seq<char>)
    requires
        !occurs(s, pat),
        s.len() >= 1,
    ensures
        !occurs(s.skip(1), pat),
{
    if occurs(s.skip(1), pat) {
        let i = choose|i: int| occurs_at(s.skip(1), pat, i);
        assert(s.skip(1).subrange(i, i + pat.len()) =~= s.subrange(i + 1, i + 1 + pat.len()));
        assert(occurs_at(s, pat, i + 1));
    }
}

/// Replacement leaves a string unchanged when the pattern does not occur
/// in it.
pub proof fn lemma_replace_all_noop(s: Seq<char>, from: Seq<char>, to: Seq<char>)
    requires
        !occurs(s, from) || from.len() == 0,
    ensures
        replace_all_spec(s, from, to) == s,
    decreases s.len(),
{
    if from.len() == 0 || s.len() < from.len() {
    } else {
        assert(!occurs_at(s, from, 0));
        assert(s.subrange(0, from.len() as int) != from);
        lemma_not_occurs_skip(s, from);
        lemma_replace_all_noop(s.skip(1), from, to);
        assert(seq![s[0]] + s.skip(1) =~= s);
    }
}

/// A removal chain leaves a string unchanged when none of its patterns
/// occurs in it.
pub proof fn lemma_remove_chain_noop(s: Seq<char>, pats: Seq<Seq<char>>)
    requires
        forall|k: int| 0 <= k < pats.len() ==> !occurs(s, #[trigger] pats[k]) || pats[k].len() == 0,
    ensures
        remove_chain(s, pats) == s,
    decreases pats.len(),
{
    if pats.len() > 0 {
        lemma_replace_all_noop(s, pats[0], Seq::<char>::empty());
        assert(forall|k: int|
            0 <= k < pats.drop_first().len() ==> pats.drop_first()[k] == pats[k + 1]);
        lemma_remove_chain_noop(s, pats.drop_first());
    }
}

/// A replacement chain leaves a string unchanged when none of its `from`
/// patterns occurs in it.
pub proof fn lemma_replace_chain_noop(s: Seq<char>, reps: Seq<(Seq<char>, Seq<char>)>)
    requires
        forall|k: int| 0 <= k < reps.len() ==> !occurs(s, #[trigger] reps[k].0) || reps[k].0.len() == 0,
    ensures
        replace_chain(s, reps) == s,
    decreases reps.len(),
{
    if reps.len() > 0 {
        lemma_replace_all_noop(s, reps[0].0, reps[0].1);
        assert(forall|k: int|
            0 <= k < reps.drop_first().len() ==> reps.drop_first()[k] == reps[k + 1]);
        lemma_replace_chain_noop(s, reps.drop_first());
    }
}

proof fn lemma_norm_prefix_edges(s: Seq<char>, i: int)
    requires
        i <= s.len(),
    ensures
        norm_ws_prefix(s, i).len() > 0 ==> !is_wspace(norm_ws_prefix(s, i).first()) && !is_wspace(
            norm_ws_prefix(s, i).last(),
        ),
    decreases i,
{
    if i > 0 {
        lemma_norm_prefix_edges(s, i - 1);
    }
}

/// Normalized text never starts or ends with whitespace.
pub proof fn lemma_norm_edges(s: Seq<char>)
    ensures
        norm_ws_spec(s).len() > 0 ==> !is_wspace(norm_ws_spec(s).first()) && !is_wspace(
            norm_ws_spec(s).last(),
        ),
{
    lemma_norm_prefix_edges(s, s.len() as int);
}

/// Trimming leaves a string unchanged when neither end is whitespace.
pub proof fn lemma_trim_noop(s: Seq<char>)
    requires
        s.len() == 0 || (!is_wspace(s.first()) && !is_wspace(s.last())),
    ensures
        trim_spec(s) == s,
{
}

/// Cleaning is idempotent on inputs whose cleaned form is already
/// whitespace-normal and matches no configured pattern: cleaning the
/// cleaned text changes nothing. (Without those side conditions the law
/// fails: removing `"a b"` from `"x a b y"` leaves `"x  y"`, which a
/// second cleaning collapses to `"x y"`.)
pub proof fn lemma_clean_idempotent(
    s: Seq<char>,
    removes: Seq<Seq<char>>,
    reps: Seq<(Seq<char>, Seq<char>)>,
)
    requires
        norm_ws_spec(clean_spec(s, removes, reps)) == clean_spec(s, removes, reps),
        forall|k: int|
            0 <= k < removes.len() ==> !occurs(clean_spec(s, removes, reps), #[trigger] removes[k])
                || removes[k].len() == 0,
        forall|k: int|
            0 <= k < reps.len() ==> !occurs(clean_spec(s, removes, reps), #[trigger] reps[k].0)
                || reps[k].0.len() == 0,
    ensures
        clean_spec(clean_spec(s, removes, reps), removes, reps) == clean_spec(s, removes, reps),
{
    let t = clean_spec(s, removes, reps);
    lemma_remove_chain_noop(t, removes);
    lemma_replace_chain_noop(t, reps);
    lemma_norm_edges(t);
    lemma_trim_noop(t);
}

} // verus!
