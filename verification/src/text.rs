//! Character-level text utilities: substring search, delimiter splitting,
//! whitespace trimming, and path basename extraction.
//!
//! All executable functions are specified against `Seq<char>` views, so the
//! extraction and dispatch layers can state their contracts mathematically.

use vstd::prelude::*;
use vstd::string::StrSliceExecFns;

verus! {

/// The pattern `pat` occurs in `s` starting at index `i`.
pub open spec fn occurs_at(s: Seq<char>, pat: Seq<char>, i: int) -> bool {
    0 <= i && i + pat.len() <= s.len() && s.subrange(i, i + pat.len()) == pat
}

/// The pattern `pat` occurs somewhere in `s`.
pub open spec fn contains_seq(s: Seq<char>, pat: Seq<char>) -> bool {
    exists|i: int| occurs_at(s, pat, i)
}

/// Whether `pat` occurs in `s` at the fixed position `i`.
fn match_at(s: &str, pat: &str, i: usize) -> (b: bool)
    requires
        i + pat@.len() <= s@.len(),
    ensures
        b == occurs_at(s@, pat@, i as int),
{
    let n = s.unicode_len();
    let m = pat.unicode_len();
    let mut j: usize = 0;
    while j < m
        invariant
            j <= m,
            m == pat@.len(),
            n == s@.len(),
            i + m <= n,
            forall|k: int| 0 <= k < j ==> s@[i + k] == pat@[k],
        decreases m - j,
    {
        if s.get_char(i + j) != pat.get_char(j) {
            proof {
                assert(s@.subrange(i as int, i + pat@.len())[j as int] == s@[i + j]);
            }
            return false;
        }
        j = j + 1;
    }
    proof {
        assert(s@.subrange(i as int, i + pat@.len()) =~= pat@);
    }
    true
}

/// Whether the pattern `pat` occurs anywhere in `s`.
pub fn contains_str(s: &str, pat: &str) -> (b: bool)
    ensures
        b == contains_seq(s@, pat@),
{
    let n = s.unicode_len();
    let m = pat.unicode_len();
    if m > n {
        return false;
    }
    if m == 0 {
        proof {
            assert(s@.subrange(0, 0) =~= pat@);
            assert(occurs_at(s@, pat@, 0));
        }
        return true;
    }
    let mut i: usize = 0;
    while i <= n - m
        invariant
            1 <= m <= n,
            n == s@.len(),
            m == pat@.len(),
            i <= n - m + 1,
            forall|k: int| 0 <= k < i ==> !occurs_at(s@, pat@, k),
        decreases n - m - i + 1,
    {
        if match_at(s, pat, i) {
            return true;
        }
        i = i + 1;
    }
    false
}

/// The pieces of `s` between occurrences of the delimiter `d`, in order.
/// A string with no delimiter yields one piece; every delimiter adds one.
pub open spec fn split_on(s: Seq<char>, d: char) -> Seq<Seq<char>>
    decreases s.len(),
{
    if s.len() == 0 {
        seq![Seq::<char>::empty()]
    } else if s[0] == d {
        seq![Seq::<char>::empty()] + split_on(s.drop_first(), d)
    } else {
        let rest = split_on(s.drop_first(), d);
        seq![seq![s[0]] + rest[0]] + rest.drop_first()
    }
}

/// Splitting always yields at least one piece.
pub proof fn lemma_split_nonempty(s: Seq<char>, d: char)
    ensures
        split_on(s, d).len() >= 1,
    decreases s.len(),
{
    if s.len() > 0 {
        lemma_split_nonempty(s.drop_first(), d);
    }
}

/// If `p` is the position of the first delimiter in `s` (or `s.len()` when
/// there is none), splitting takes `s.subrange(0, p)` as the first piece and
/// recurses past the delimiter.
pub proof fn lemma_split_first(s: Seq<char>, d: char, p: int)
    requires
        0 <= p <= s.len(),
        forall|k: int| 0 <= k < p ==> s[k] != d,
        p < s.len() ==> s[p] == d,
    ensures
        p == s.len() ==> split_on(s, d) == seq![s],
        p < s.len() ==> split_on(s, d) == seq![s.subrange(0, p)] + split_on(
            s.subrange(p + 1, s.len() as int),
            d,
        ),
    decreases s.len(),
{
    lemma_split_nonempty(s, d);
    if p == 0 {
        if s.len() == 0 {
            assert(split_on(s, d) =~~= seq![s]);
        } else {
            assert(s[0] == d);
            assert(s.drop_first() =~= s.subrange(1, s.len() as int));
            assert(seq![s.subrange(0, 0)] =~~= seq![Seq::<char>::empty()]);
            assert(split_on(s, d) =~~= seq![s.subrange(0, 0)] + split_on(
                s.subrange(1, s.len() as int),
                d,
            ));
        }
    } else {
        assert(s.len() > 0 && s[0] != d);
        let s1 = s.drop_first();
        lemma_split_first(s1, d, p - 1);
        lemma_split_nonempty(s1, d);
        let rest = split_on(s1, d);
        if p == s.len() {
            assert(split_on(s1, d) == seq![s1]);
            assert(seq![s[0]] + s1 =~= s);
            assert(split_on(s, d) =~~= seq![s]);
        } else {
            let tail = s.subrange(p + 1, s.len() as int);
            assert(s1.subrange(p - 1 + 1, s1.len() as int) =~= tail);
            assert(rest == seq![s1.subrange(0, p - 1)] + split_on(tail, d));
            assert(rest[0] == s1.subrange(0, p - 1));
            assert(seq![s[0]] + s1.subrange(0, p - 1) =~= s.subrange(0, p));
            assert(rest.drop_first() =~~= split_on(tail, d));
            assert(split_on(s, d) =~~= seq![s.subrange(0, p)] + split_on(tail, d));
        }
    }
}

/// The position of the first occurrence of `d` in `s`, or the length of `s`
/// when `d` does not occur.
pub fn first_delim(s: &str, d: char) -> (p: usize)
    ensures
        p <= s@.len(),
        forall|k: int| 0 <= k < p ==> s@[k] != d,
        p < s@.len() ==> s@[p as int] == d,
{
    let n = s.unicode_len();
    let mut i: usize = 0;
    while i < n
        invariant
            i <= n,
            n == s@.len(),
            forall|k: int| 0 <= k < i ==> s@[k] != d,
        decreases n - i,
    {
        if s.get_char(i) == d {
            return i;
        }
        i = i + 1;
    }
    n
}

/// The `n`th delimiter-separated piece of `s`, if `s` has that many pieces.
pub fn nth_token(s: &str, d: char, n: usize) -> (r: Option<String>)
    ensures
        match r {
            Some(t) => n < split_on(s@, d).len() && t@ == split_on(s@, d)[n as int],
            None => n >= split_on(s@, d).len(),
        },
    decreases s@.len(),
{
    let len = s.unicode_len();
    let p = first_delim(s, d);
    proof {
        lemma_split_first(s@, d, p as int);
    }
    if n == 0 {
        let t = s.substring_char(0, p);
        proof {
            if p < len {
                assert(split_on(s@, d)[0] == s@.subrange(0, p as int));
            }
        }
        Some(t.to_owned())
    } else if p == len {
        proof {
            assert(split_on(s@, d) == seq![s@]);
        }
        None
    } else {
        let rest = s.substring_char(p + 1, len);
        proof {
            assert(rest@ == s@.subrange(p + 1, s@.len() as int));
            assert(rest@.len() < s@.len());
        }
        let r = nth_token(rest, d, n - 1);
        proof {
            let whole = split_on(s@, d);
            let parts = split_on(rest@, d);
            assert(whole == seq![s@.subrange(0, p as int)] + parts);
            assert(whole.len() == 1 + parts.len());
            assert(n - 1 < parts.len() ==> whole[n as int] == parts[n - 1]);
        }
        r
    }
}

/// The whitespace characters stripped by trimming.
pub open spec fn is_space(c: char) -> bool {
    c == ' ' || c == '\t' || c == '\r' || c == '\n'
}

/// Whether `c` is one of the whitespace characters stripped by trimming.
#[verifier::when_used_as_spec(is_space)]
pub fn is_space_char(c: char) -> (b: bool)
    ensures
        b == is_space(c),
{
    c == ' ' || c == '\t' || c == '\r' || c == '\n'
}

/// `s` without its leading whitespace.
pub open spec fn trim_front_spec(s: Seq<char>) -> Seq<char>
    decreases s.len(),
{
    if s.len() > 0 && is_space(s[0]) {
        trim_front_spec(s.drop_first())
    } else {
        s
    }
}

/// `s` without its trailing whitespace.
pub open spec fn trim_back_spec(s: Seq<char>) -> Seq<char>
    decreases s.len(),
{
    if s.len() > 0 && is_space(s[s.len() - 1]) {
        trim_back_spec(s.drop_last())
    } else {
        s
    }
}

/// `s` without leading and trailing whitespace.
pub open spec fn trim_spec(s: Seq<char>) -> Seq<char> {
    trim_back_spec(trim_front_spec(s))
}

proof fn lemma_trim_front_at(s: Seq<char>, k: int)
    requires
        0 <= k <= s.len(),
        forall|j: int| 0 <= j < k ==> is_space(s[j]),
        k < s.len() ==> !is_space(s[k]),
    ensures
        trim_front_spec(s) == s.subrange(k, s.len() as int),
    decreases k,
{
    if k == 0 {
        assert(s.subrange(0, s.len() as int) =~= s);
    } else {
        let s1 = s.drop_first();
        lemma_trim_front_at(s1, k - 1);
        assert(s1.subrange(k - 1, s1.len() as int) =~= s.subrange(k, s.len() as int));
    }
}

proof fn lemma_trim_back_at(s: Seq<char>, k: int)
    requires
        0 <= k <= s.len(),
        forall|j: int| k <= j < s.len() ==> is_space(s[j]),
        k > 0 ==> !is_space(s[k - 1]),
    ensures
        trim_back_spec(s) == s.subrange(0, k),
    decreases s.len() - k,
{
    if k == s.len() {
        if s.len() > 0 && is_space(s[s.len() - 1]) {
            assert(!is_space(s[k - 1]));
            assert(false);
        }
        assert(s.subrange(0, s.len() as int) =~= s);
    } else {
        let s1 = s.drop_last();
        lemma_trim_back_at(s1, k);
        assert(s1.subrange(0, k) =~= s.subrange(0, k));
    }
}

/// `s` with surrounding whitespace removed.
pub fn trim_str(s: &str) -> (r: String)
    ensures
        r@ == trim_spec(s@),
{
    let n = s.unicode_len();
    let mut a: usize = 0;
    while a < n
        invariant
            a <= n,
            n == s@.len(),
            forall|j: int| 0 <= j < a ==> is_space(s@[j]),
        ensures
            a <= n,
            forall|j: int| 0 <= j < a ==> is_space(s@[j]),
            a < n ==> !is_space(s@[a as int]),
        decreases n - a,
    {
        if !is_space_char(s.get_char(a)) {
            break;
        }
        a = a + 1;
    }
    let mut b: usize = n;
    while b > a
        invariant
            a <= b <= n,
            n == s@.len(),
            forall|j: int| b <= j < n ==> is_space(s@[j]),
        ensures
            a <= b <= n,
            forall|j: int| b <= j < n ==> is_space(s@[j]),
            b > a ==> !is_space(s@[b - 1]),
        decreases b,
    {
        if !is_space_char(s.get_char(b - 1)) {
            break;
        }
        b = b - 1;
    }
    proof {
        lemma_trim_front_at(s@, a as int);
        let t = s@.subrange(a as int, s@.len() as int);
        if b == a {
            lemma_trim_back_at(t, 0);
        } else {
            assert(forall|j: int| b - a <= j < t.len() ==> is_space(#[trigger] t[j]));
            assert(t[b - a - 1] == s@[b - 1]);
            lemma_trim_back_at(t, b - a);
        }
        assert(t.subrange(0, b - a) =~= s@.subrange(a as int, b as int));
    }
    let t = s.substring_char(a, b);
    t.to_owned()
}

/// The part of `s` after the last `/`, or all of `s` when it has none.
pub open spec fn basename_spec(s: Seq<char>) -> Seq<char>
    decreases s.len(),
{
    if s.len() == 0 {
        Seq::<char>::empty()
    } else if s[s.len() - 1] == '/' {
        Seq::<char>::empty()
    } else {
        basename_spec(s.drop_last()) + seq![s[s.len() - 1]]
    }
}

proof fn lemma_basename_at(s: Seq<char>, k: int)
    requires
        0 <= k <= s.len(),
        forall|j: int| k <= j < s.len() ==> s[j] != '/',
        k > 0 ==> s[k - 1] == '/',
    ensures
        basename_spec(s) == s.subrange(k, s.len() as int),
    decreases s.len() - k,
{
    if k == s.len() {
        if k == 0 {
            assert(basename_spec(s) =~= s.subrange(0, 0));
        } else {
            assert(s[s.len() - 1] == '/');
            assert(basename_spec(s) =~= s.subrange(k, s.len() as int));
        }
    } else {
        let s1 = s.drop_last();
        lemma_basename_at(s1, k);
        assert(s[s.len() - 1] != '/');
        assert(s1.subrange(k, s1.len() as int).push(s[s.len() - 1]) =~= s.subrange(
            k,
            s.len() as int,
        ));
        assert(basename_spec(s1) + seq![s[s.len() - 1]] =~= basename_spec(s1).push(
            s[s.len() - 1],
        ));
    }
}

/// The filename component of a `/`-separated path.
pub fn basename(s: &str) -> (r: String)
    ensures
        r@ == basename_spec(s@),
{
    let n = s.unicode_len();
    let mut k: usize = n;
    while k > 0
        invariant
            k <= n,
            n == s@.len(),
            forall|j: int| k <= j < n ==> s@[j] != '/',
        ensures
            k <= n,
            forall|j: int| k <= j < n ==> s@[j] != '/',
            k > 0 ==> s@[k - 1] == '/',
        decreases k,
    {
        if s.get_char(k - 1) == '/' {
            break;
        }
        k = k - 1;
    }
    proof {
        lemma_basename_at(s@, k as int);
    }
    let t = s.substring_char(k, n);
    t.to_owned()
}

} // verus!
