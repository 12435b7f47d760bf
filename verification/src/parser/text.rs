use vstd::prelude::*;
use vstd::string::StrSliceExecFns;

verus! {

/// The rest of `s` after the non-empty literal `p`, when `s` starts with `p`.
pub open spec fn spec_tag(s: Seq<char>, p: Seq<char>) -> Option<Seq<char>> {
    if 0 < p.len() <= s.len() && s.take(p.len() as int) == p {
        Some(s.skip(p.len() as int))
    } else {
        None
    }
}

/// Match the literal `pat` at the start of `input`, returning the rest.
pub fn tag<'a>(input: &'a str, pat: &str) -> (r: Option<&'a str>)
    ensures
        match spec_tag(input@, pat@) {
            Some(rest) => r matches Some(x) && x@ == rest,
            None => r is None,
        },
{
    let n = input.unicode_len();
    let m = pat.unicode_len();
    if m == 0 || m > n {
        return None;
    }
    let mut i: usize = 0;
    while i < m
        invariant
            n == input@.len(),
            m == pat@.len(),
            m <= n,
            i <= m,
            forall|j: int| 0 <= j < i ==> input@[j] == pat@[j],
        decreases m - i,
    {
        if input.get_char(i) != pat.get_char(i) {
            assert(input@.take(m as int)[i as int] != pat@[i as int]);
            return None;
        }
        i += 1;
    }
    assert(input@.take(m as int) =~= pat@);
    Some(input.substring_char(m, n))
}

pub open spec fn is_space(c: char) -> bool {
    c == ' ' || c == '\t'
}

/// The number of spaces and tabs `s` starts with.
pub open spec fn leading_spaces(s: Seq<char>) -> nat
    decreases s.len(),
{
    if s.len() > 0 && is_space(s[0]) {
        1 + leading_spaces(s.drop_first())
    } else {
        0
    }
}

proof fn lemma_leading_spaces(s: Seq<char>, k: int)
    requires
        0 <= k <= s.len(),
        forall|j: int| 0 <= j < k ==> is_space(#[trigger] s[j]),
        k == s.len() || !is_space(s[k]),
    ensures
        leading_spaces(s) == k,
    decreases k,
{
    if k > 0 {
        let t = s.drop_first();
        assert forall|j: int| 0 <= j < k - 1 implies is_space(#[trigger] t[j]) by {
            assert(t[j] == s[j + 1]);
        }
        lemma_leading_spaces(t, k - 1);
    }
}

/// One or more spaces or tabs, all consumed; `None` when there is none.
pub open spec fn spec_space1(s: Seq<char>) -> Option<Seq<char>> {
    if leading_spaces(s) >= 1 {
        Some(s.skip(leading_spaces(s) as int))
    } else {
        None
    }
}

pub fn space1<'a>(input: &'a str) -> (r: Option<&'a str>)
    ensures
        match spec_space1(input@) {
            Some(rest) => r matches Some(x) && x@ == rest,
            None => r is None,
        },
{
    let n = input.unicode_len();
    let mut i: usize = 0;
    while i < n
        invariant
            n == input@.len(),
            i <= n,
            forall|j: int| 0 <= j < i ==> is_space(#[trigger] input@[j]),
        ensures
            i <= n,
            forall|j: int| 0 <= j < i ==> is_space(#[trigger] input@[j]),
            i == n || !is_space(input@[i as int]),
        decreases n - i,
    {
        let c = input.get_char(i);
        if !(c == ' ' || c == '\t') {
            break;
        }
        i += 1;
    }
    proof {
        lemma_leading_spaces(input@, i as int);
    }
    if i == 0 {
        None
    } else {
        Some(input.substring_char(i, n))
    }
}

/// The parse failed: the input does not start with a phrase of this kind.
#[derive(Clone, Copy, Debug, PartialEq, Eq, Structural)]
pub struct OracleError;

} // verus!
