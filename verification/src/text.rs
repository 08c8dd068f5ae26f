//! Character-sequence primitives the engine's string heuristics are built on:
//! substring search, prefix/suffix tests, token removal, path file names and
//! whitespace splitting, each with an exact specification over `Seq<char>`.

use vstd::prelude::*;

verus! {

/// The characters of `s` starting at position `i` are exactly `sub`.
pub open spec fn occurs_at(s: Seq<char>, sub: Seq<char>, i: int) -> bool {
    0 <= i && i + sub.len() <= s.len() && s.subrange(i, i + sub.len() as int) == sub
}

pub open spec fn has_substring(s: Seq<char>, sub: Seq<char>) -> bool {
    exists|i: int| occurs_at(s, sub, i)
}

pub open spec fn starts_with(s: Seq<char>, pre: Seq<char>) -> bool {
    occurs_at(s, pre, 0)
}

pub open spec fn ends_with(s: Seq<char>, suf: Seq<char>) -> bool {
    occurs_at(s, suf, s.len() - suf.len())
}

/// What `str::to_lowercase` returns: a function of the characters alone.
pub uninterp spec fn lower_of(s: Seq<char>) -> Seq<char>;

/// Relies on `str::to_lowercase`: the lowercase equivalent of the string, as
/// defined by Unicode, determined by the input characters alone.
#[verifier::external_body]
pub(crate) fn lowercase(s: &str) -> (r: String)
    ensures
        r@ == lower_of(s@),
        s@.len() == 0 ==> r@.len() == 0,
{
    s.to_lowercase()
}

/// Relies on `String::push`: appends the given char to the end of the string.
pub assume_specification[ String::push ](s: &mut String, c: char)
    ensures
        final(s)@ == old(s)@.push(c),
;

/// Whether `s` matches `sub` at position `i`; compares one character at a time.
fn match_at(s: &str, sub: &str, i: usize, n: usize, m: usize) -> (r: bool)
    requires
        n == s@.len(),
        m == sub@.len(),
        i + m <= n,
    ensures
        r == occurs_at(s@, sub@, i as int),
{
    let mut k: usize = 0;
    while k < m
        invariant
            n == s@.len(),
            m == sub@.len(),
            i + m <= n,
            k <= m,
            forall|t: int| 0 <= t < k ==> s@[i + t] == sub@[t],
        decreases m - k,
    {
        if s.get_char(i + k) != sub.get_char(k) {
            proof {
                let sr = s@.subrange(i as int, i + m as int);
                assert(sr[k as int] == s@[i + k]);
            }
            return false;
        }
        k += 1;
    }
    proof {
        assert(s@.subrange(i as int, i + m as int) =~= sub@);
    }
    true
}

/// Position of the first occurrence of `sub` in `s`, if any.
pub fn find_str(s: &str, sub: &str) -> (r: Option<usize>)
    ensures
        match r {
            Some(i) => occurs_at(s@, sub@, i as int) && (forall|j: int|
                0 <= j < i ==> !occurs_at(s@, sub@, j)),
            None => !has_substring(s@, sub@),
        },
{
    let n = s.unicode_len();
    let m = sub.unicode_len();
    if m > n {
        return None;
    }
    if m == 0 {
        proof {
            assert(s@.subrange(0, 0) =~= sub@);
        }
        return Some(0);
    }
    let mut i: usize = 0;
    while i <= n - m
        invariant
            n == s@.len(),
            m == sub@.len(),
            0 < m <= n,
            i <= n - m + 1,
            forall|j: int| 0 <= j < i ==> !occurs_at(s@, sub@, j),
        decreases n - i,
    {
        if match_at(s, sub, i, n, m) {
            return Some(i);
        }
        i += 1;
    }
    None
}

pub fn contains_str(s: &str, sub: &str) -> (r: bool)
    ensures
        r == has_substring(s@, sub@),
{
    match find_str(s, sub) {
        Some(_) => true,
        None => false,
    }
}

pub fn ends_with_str(s: &str, suf: &str) -> (r: bool)
    ensures
        r == ends_with(s@, suf@),
{
    let n = s.unicode_len();
    let m = suf.unicode_len();
    if m > n {
        return false;
    }
    match_at(s, suf, n - m, n, m)
}

pub fn starts_with_str(s: &str, pre: &str) -> (r: bool)
    ensures
        r == starts_with(s@, pre@),
{
    let n = s.unicode_len();
    let m = pre.unicode_len();
    if m > n {
        return false;
    }
    match_at(s, pre, 0, n, m)
}

pub fn eq_str(a: &str, b: &str) -> (r: bool)
    ensures
        r == (a@ == b@),
{
    let n = a.unicode_len();
    let m = b.unicode_len();
    if n != m {
        return false;
    }
    let mut k: usize = 0;
    while k < n
        invariant
            n == a@.len(),
            n == b@.len(),
            k <= n,
            forall|t: int| 0 <= t < k ==> a@[t] == b@[t],
        decreases n - k,
    {
        if a.get_char(k) != b.get_char(k) {
            return false;
        }
        k += 1;
    }
    proof {
        assert(a@ =~= b@);
    }
    true
}

pub fn str_concat(a: &str, b: &str) -> (r: String)
    ensures
        r@ == a@ + b@,
{
    let mut r = String::from_str(a);
    r.append(b);
    r
}

/// `s` with every occurrence of `pat` removed, scanning left to right.
pub open spec fn remove_all(s: Seq<char>, pat: Seq<char>) -> Seq<char>
    decreases s.len(),
{
    if pat.len() == 0 || s.len() == 0 {
        s
    } else if starts_with(s, pat) {
        remove_all(s.skip(pat.len() as int), pat)
    } else {
        seq![s[0]] + remove_all(s.skip(1), pat)
    }
}

pub fn remove_all_str(s: &str, pat: &str) -> (r: String)
    ensures
        r@ == remove_all(s@, pat@),
{
    let n = s.unicode_len();
    let m = pat.unicode_len();
    if m == 0 {
        return String::from_str(s);
    }
    let mut out = String::new();
    let mut i: usize = 0;
    proof {
        assert(s@.skip(0) =~= s@);
        assert(Seq::<char>::empty() + remove_all(s@, pat@) =~= remove_all(s@, pat@));
    }
    while i < n
        invariant
            n == s@.len(),
            m == pat@.len(),
            m > 0,
            i <= n,
            remove_all(s@, pat@) == out@ + remove_all(s@.skip(i as int), pat@),
        decreases n - i,
    {
        let ghost rest = s@.skip(i as int);
        if m <= n - i && match_at(s, pat, i, n, m) {
            proof {
                assert(rest.subrange(0, m as int) =~= s@.subrange(i as int, i + m as int));
                assert(starts_with(rest, pat@));
                assert(rest.skip(m as int) =~= s@.skip(i + m as int));
            }
            i += m;
        } else {
            let c = s.get_char(i);
            proof {
                if m <= n - i {
                    assert(rest.subrange(0, m as int) =~= s@.subrange(i as int, i + m as int));
                    assert(!starts_with(rest, pat@));
                } else {
                    assert(!starts_with(rest, pat@));
                }
                assert(rest.skip(1) =~= s@.skip(i + 1));
                assert(rest[0] == s@[i as int]);
                assert(out@ + remove_all(rest, pat@) == out@.push(c) + remove_all(
                    s@.skip(i + 1),
                    pat@,
                )) by {
                    assert(out@ + (seq![c] + remove_all(s@.skip(i + 1), pat@)) =~= out@.push(c)
                        + remove_all(s@.skip(i + 1), pat@));
                }
            }
            out.push(c);
            i += 1;
        }
    }
    proof {
        assert(s@.skip(n as int) =~= Seq::<char>::empty());
        assert(out@ + remove_all(s@.skip(n as int), pat@) =~= out@);
    }
    out
}

/// Position of the first occurrence of `sub` in `s`; meaningful only when
/// `s` has `sub` as a substring.
pub open spec fn first_occurrence(s: Seq<char>, sub: Seq<char>) -> int
    decreases s.len(),
{
    if occurs_at(s, sub, 0) {
        0
    } else if s.len() == 0 {
        0
    } else {
        1 + first_occurrence(s.drop_first(), sub)
    }
}

pub proof fn lemma_first_occurrence(s: Seq<char>, sub: Seq<char>)
    ensures
        0 <= first_occurrence(s, sub) <= s.len(),
        forall|j: int| 0 <= j < first_occurrence(s, sub) ==> !occurs_at(s, sub, j),
        has_substring(s, sub) ==> occurs_at(s, sub, first_occurrence(s, sub)),
    decreases s.len(),
{
    if !occurs_at(s, sub, 0) && s.len() > 0 {
        let t = s.drop_first();
        lemma_first_occurrence(t, sub);
        assert forall|j: int| 0 <= j implies (occurs_at(t, sub, j) <==> occurs_at(
            s,
            sub,
            j + 1,
        )) by {
            if occurs_at(t, sub, j) {
                assert(s.subrange(j + 1, j + 1 + sub.len() as int) =~= t.subrange(
                    j,
                    j + sub.len() as int,
                ));
            }
            if occurs_at(s, sub, j + 1) {
                assert(t.subrange(j, j + sub.len() as int) =~= s.subrange(
                    j + 1,
                    j + 1 + sub.len() as int,
                ));
            }
        }
        assert forall|j: int| 0 <= j < first_occurrence(s, sub) implies !occurs_at(s, sub, j) by {
            if j >= 1 {
                assert(!occurs_at(t, sub, j - 1));
            }
        }
        if has_substring(s, sub) {
            let i = choose|i: int| occurs_at(s, sub, i);
            assert(i >= 1);
            assert(occurs_at(t, sub, i - 1));
            assert(has_substring(t, sub));
        }
    }
}

pub open spec fn is_path_sep(c: char) -> bool {
    c == '\\' || c == '/'
}

/// Index of the last path separator in `s`, or -1 when there is none.
pub open spec fn last_sep(s: Seq<char>) -> int
    decreases s.len(),
{
    if s.len() == 0 {
        -1
    } else if is_path_sep(s[s.len() - 1]) {
        s.len() - 1
    } else {
        last_sep(s.drop_last())
    }
}

/// The final path component of `s`: everything after the last separator.
pub open spec fn filename_of(s: Seq<char>) -> Seq<char> {
    s.skip(last_sep(s) + 1)
}

proof fn lemma_last_sep_bounds(s: Seq<char>)
    ensures
        -1 <= last_sep(s) < s.len(),
        forall|j: int| last_sep(s) < j < s.len() ==> !is_path_sep(s[j]),
        last_sep(s) >= 0 ==> is_path_sep(s[last_sep(s)]),
    decreases s.len(),
{
    if s.len() > 0 && !is_path_sep(s[s.len() - 1]) {
        lemma_last_sep_bounds(s.drop_last());
        assert(forall|j: int| 0 <= j < s.len() - 1 ==> s.drop_last()[j] == s[j]);
    }
}

/// The final path component of `path`, e.g. the bare file name of a full path.
pub fn filename_str(path: &str) -> (r: String)
    ensures
        r@ == filename_of(path@),
{
    let n = path.unicode_len();
    let mut k: usize = n;
    while k > 0
        invariant_except_break
            n == path@.len(),
            k <= n,
            forall|j: int| k <= j < n ==> !is_path_sep(path@[j]),
        ensures
            n == path@.len(),
            k <= n,
            forall|j: int| k <= j < n ==> !is_path_sep(path@[j]),
            k > 0 ==> is_path_sep(path@[k - 1]),
        decreases k,
    {
        let c = path.get_char(k - 1);
        if c == '\\' || c == '/' {
            break;
        }
        k -= 1;
    }
    proof {
        lemma_last_sep_bounds(path@);
        if k > 0 {
            assert(is_path_sep(path@[k - 1]));
            assert(last_sep(path@) == k - 1) by {
                if last_sep(path@) > k - 1 {
                    assert(!is_path_sep(path@[last_sep(path@)]));
                }
                if last_sep(path@) < k - 1 {
                    assert(!is_path_sep(path@[k - 1]));
                }
            }
        } else {
            assert(last_sep(path@) == -1) by {
                if last_sep(path@) >= 0 {
                    assert(!is_path_sep(path@[last_sep(path@)]));
                }
            }
        }
    }
    let r = path.substring_char(k, n);
    String::from_str(r)
}

/// The folder part of a path: everything before the last separator, or
/// nothing when the path has no separator.
pub open spec fn parent_dir_of(s: Seq<char>) -> Option<Seq<char>> {
    if last_sep(s) >= 0 {
        Some(s.take(last_sep(s)))
    } else {
        None
    }
}

pub fn parent_dir_str(path: &str) -> (r: Option<String>)
    ensures
        r.deep_view() == parent_dir_of(path@),
{
    let n = path.unicode_len();
    let mut k: usize = n;
    while k > 0
        invariant_except_break
            n == path@.len(),
            k <= n,
            forall|j: int| k <= j < n ==> !is_path_sep(path@[j]),
        ensures
            n == path@.len(),
            k <= n,
            forall|j: int| k <= j < n ==> !is_path_sep(path@[j]),
            k > 0 ==> is_path_sep(path@[k - 1]),
        decreases k,
    {
        let c = path.get_char(k - 1);
        if c == '\\' || c == '/' {
            break;
        }
        k -= 1;
    }
    proof {
        lemma_last_sep_bounds(path@);
        if k > 0 {
            assert(last_sep(path@) == k - 1) by {
                if last_sep(path@) > k - 1 {
                    assert(!is_path_sep(path@[last_sep(path@)]));
                }
                if last_sep(path@) < k - 1 {
                    assert(!is_path_sep(path@[k - 1]));
                }
            }
        } else {
            assert(last_sep(path@) == -1) by {
                if last_sep(path@) >= 0 {
                    assert(!is_path_sep(path@[last_sep(path@)]));
                }
            }
        }
    }
    if k == 0 {
        return None;
    }
    let r = path.substring_char(0, k - 1);
    Some(String::from_str(r))
}

/// Splits on the first space: the characters before it and those after it.
/// Without a space, the whole of `s` and the empty sequence.
pub open spec fn first_space(s: Seq<char>) -> int
    decreases s.len(),
{
    if s.len() == 0 {
        0
    } else if s[0] == ' ' {
        0
    } else {
        1 + first_space(s.skip(1))
    }
}

proof fn lemma_first_space(s: Seq<char>)
    ensures
        0 <= first_space(s) <= s.len(),
        forall|j: int| 0 <= j < first_space(s) ==> s[j] != ' ',
        first_space(s) < s.len() ==> s[first_space(s)] == ' ',
    decreases s.len(),
{
    if s.len() > 0 && s[0] != ' ' {
        lemma_first_space(s.skip(1));
        assert forall|j: int| 0 <= j < first_space(s) implies s[j] != ' ' by {
            if j >= 1 {
                assert(s.skip(1)[j - 1] == s[j]);
            }
        }
        if first_space(s) < s.len() {
            assert(s.skip(1)[first_space(s) - 1] == s[first_space(s)]);
        }
    }
}

/// The space-delimited words of `s`, empty pieces dropped.
pub open spec fn split_ws(s: Seq<char>) -> Seq<Seq<char>>
    decreases s.len(),
    via split_ws_decreases
{
    if s.len() == 0 {
        Seq::empty()
    } else if s[0] == ' ' {
        split_ws(s.skip(1))
    } else {
        seq![s.take(first_space(s))] + split_ws(s.skip(first_space(s)))
    }
}

#[via_fn]
proof fn split_ws_decreases(s: Seq<char>) {
    if s.len() > 0 && s[0] != ' ' {
        lemma_first_space(s);
    }
}

pub fn split_ws_str(s: &str) -> (r: Vec<String>)
    ensures
        r.deep_view() == split_ws(s@),
{
    let n = s.unicode_len();
    let mut out: Vec<String> = Vec::new();
    let mut i: usize = 0;
    proof {
        assert(s@.skip(0) =~= s@);
        assert(out.deep_view() =~= Seq::<Seq<char>>::empty());
        assert(Seq::<Seq<char>>::empty() + split_ws(s@) =~= split_ws(s@));
    }
    while i < n
        invariant
            n == s@.len(),
            i <= n,
            split_ws(s@) == out.deep_view() + split_ws(s@.skip(i as int)),
        decreases n - i,
    {
        let ghost rest = s@.skip(i as int);
        if s.get_char(i) == ' ' {
            proof {
                assert(rest[0] == s@[i as int]);
                assert(rest.skip(1) =~= s@.skip(i + 1));
            }
            i += 1;
        } else {
            let mut k: usize = i;
            while k < n && s.get_char(k) != ' '
                invariant
                    n == s@.len(),
                    i <= k <= n,
                    forall|j: int| i <= j < k ==> s@[j] != ' ',
                decreases n - k,
            {
                k += 1;
            }
            proof {
                lemma_first_space(rest);
                assert(forall|j: int| 0 <= j < rest.len() ==> rest[j] == s@[i + j]);
                assert(first_space(rest) == k - i) by {
                    if first_space(rest) < k - i {
                        assert(s@[i + first_space(rest)] != ' ');
                    }
                    if first_space(rest) > k - i {
                        assert(rest[k - i] != ' ');
                        assert(k < n);
                    }
                }
                assert(rest.take(k - i) =~= s@.subrange(i as int, k as int));
                assert(rest.skip(k - i) =~= s@.skip(k as int));
            }
            let word = String::from_str(s.substring_char(i, k));
            let ghost prev_dv = out.deep_view();
            out.push(word);
            proof {
                assert(out.deep_view() =~= prev_dv.push(word@));
                assert(prev_dv + (seq![word@] + split_ws(s@.skip(k as int))) =~= prev_dv.push(
                    word@,
                ) + split_ws(s@.skip(k as int)));
            }
            i = k;
        }
    }
    proof {
        assert(s@.skip(n as int) =~= Seq::<char>::empty());
        assert(out.deep_view() + split_ws(s@.skip(n as int)) =~= out.deep_view());
    }
    out
}

} // verus!
