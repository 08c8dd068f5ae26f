//! Version-token matching: a version is the first dotted run of digits found
//! in a tag or request string, and versions match by exact token equality.

use vstd::prelude::*;

verus! {

pub open spec fn is_digit(c: char) -> bool {
    '0' <= c && c <= '9'
}

/// First position at or after `i` holding a digit, or the length of `s`.
pub open spec fn first_digit_from(s: Seq<char>, i: int) -> int
    decreases s.len() - i,
{
    if i < 0 || i >= s.len() {
        s.len() as int
    } else if is_digit(s[i]) {
        i
    } else {
        first_digit_from(s, i + 1)
    }
}

proof fn lemma_first_digit_from(s: Seq<char>, i: int)
    requires
        0 <= i <= s.len(),
    ensures
        i <= first_digit_from(s, i) <= s.len(),
        forall|j: int| i <= j < first_digit_from(s, i) ==> !is_digit(s[j]),
        first_digit_from(s, i) < s.len() ==> is_digit(s[first_digit_from(s, i)]),
    decreases s.len() - i,
{
    if i < s.len() && !is_digit(s[i]) {
        lemma_first_digit_from(s, i + 1);
    }
}

/// First position at or after `i` not holding a digit, or the length of `s`.
pub open spec fn digit_run_end(s: Seq<char>, i: int) -> int
    decreases s.len() - i,
{
    if i < 0 || i >= s.len() {
        s.len() as int
    } else if is_digit(s[i]) {
        digit_run_end(s, i + 1)
    } else {
        i
    }
}

proof fn lemma_digit_run_end(s: Seq<char>, i: int)
    requires
        0 <= i <= s.len(),
    ensures
        i <= digit_run_end(s, i) <= s.len(),
        forall|j: int| i <= j < digit_run_end(s, i) ==> is_digit(s[j]),
        digit_run_end(s, i) < s.len() ==> !is_digit(s[digit_run_end(s, i)]),
    decreases s.len() - i,
{
    if i < s.len() && is_digit(s[i]) {
        lemma_digit_run_end(s, i + 1);
    }
}

/// End (exclusive) of the dotted-digit token that starts at `i`: the digit run
/// from `i`, extended across each '.' that is followed by another digit.
pub open spec fn token_end(s: Seq<char>, i: int) -> int
    decreases s.len() - i,
    via token_end_decreases
{
    if !(0 <= i <= s.len()) {
        i
    } else {
        let j = digit_run_end(s, i);
        if j < s.len() && s[j] == '.' && j + 1 < s.len() && is_digit(s[j + 1]) {
            token_end(s, j + 1)
        } else {
            j
        }
    }
}

#[via_fn]
proof fn token_end_decreases(s: Seq<char>, i: int) {
    if 0 <= i <= s.len() {
        lemma_digit_run_end(s, i);
    }
}

/// The version token of `s`: the first substring matching a dotted run of
/// digits, or nothing when `s` holds no digit at all.
pub open spec fn version_token(s: Seq<char>) -> Option<Seq<char>> {
    let i = first_digit_from(s, 0);
    if i == s.len() {
        None
    } else {
        Some(s.subrange(i, token_end(s, i)))
    }
}

proof fn lemma_token_end_bounds(s: Seq<char>, i: int)
    requires
        0 <= i <= s.len(),
    ensures
        i <= token_end(s, i) <= s.len(),
    decreases s.len() - i,
{
    lemma_digit_run_end(s, i);
    let j = digit_run_end(s, i);
    if j < s.len() && s[j] == '.' && j + 1 < s.len() && is_digit(s[j + 1]) {
        lemma_token_end_bounds(s, j + 1);
    }
}

/// Extracts the version token of `text`, the first dotted run of digits.
pub fn parse_version(text: &str) -> (r: Option<String>)
    ensures
        r.deep_view() == version_token(text@),
{
    let n = text.unicode_len();
    let mut i: usize = 0;
    while i < n && !is_digit_exec(text.get_char(i))
        invariant
            n == text@.len(),
            i <= n,
            forall|j: int| 0 <= j < i ==> !is_digit(text@[j]),
        decreases n - i,
    {
        i += 1;
    }
    proof {
        lemma_first_digit_from(text@, 0);
        assert(first_digit_from(text@, 0) == i) by {
            if first_digit_from(text@, 0) < i {
                assert(!is_digit(text@[first_digit_from(text@, 0)]));
            }
            if first_digit_from(text@, 0) > i {
                assert(i < n);
            }
        }
    }
    if i == n {
        return None;
    }
    let start = i;
    // Walk dotted digit runs until the token can extend no further.
    let mut cur = i;
    let mut e = cur;
    loop
        invariant
            n == text@.len(),
            start <= cur < n,
            is_digit(text@[cur as int]),
            token_end(text@, start as int) == token_end(text@, cur as int),
        ensures
            n == text@.len(),
            start <= e <= n,
            e == token_end(text@, start as int),
        decreases n - cur,
    {
        let mut j = cur;
        while j < n && is_digit_exec(text.get_char(j))
            invariant
                n == text@.len(),
                cur <= j <= n,
                forall|t: int| cur <= t < j ==> is_digit(text@[t]),
            decreases n - j,
        {
            j += 1;
        }
        proof {
            lemma_digit_run_end(text@, cur as int);
            assert(digit_run_end(text@, cur as int) == j) by {
                if digit_run_end(text@, cur as int) < j {
                    assert(is_digit(text@[digit_run_end(text@, cur as int)]));
                }
                if digit_run_end(text@, cur as int) > j {
                    assert(j < n);
                }
            }
        }
        if j < n && text.get_char(j) == '.' && j + 1 < n && is_digit_exec(text.get_char(j + 1)) {
            cur = j + 1;
        } else {
            e = j;
            proof {
                assert(token_end(text@, cur as int) == j);
            }
            break;
        }
    }
    proof {
        lemma_token_end_bounds(text@, start as int);
        lemma_digit_run_end(text@, start as int);
        let j0 = digit_run_end(text@, start as int);
        assert(j0 > start) by {
            if j0 == start {
                assert(!is_digit(text@[start as int]));
            }
        }
        if j0 < n && text@[j0] == '.' && j0 + 1 < text@.len() && is_digit(text@[j0 + 1]) {
            lemma_token_end_bounds(text@, j0 + 1);
        }
        assert(start < e);
    }
    let token = String::from_str(text.substring_char(start, e));
    Some(token)
}

fn is_digit_exec(c: char) -> (r: bool)
    ensures
        r == is_digit(c),
{
    '0' <= c && c <= '9'
}

} // verus!
