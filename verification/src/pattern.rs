//! The two patterns the manifest schema imposes: plugin names and semantic
//! versions.
//!
//! A name consists of one or more ASCII letters, digits, underscores or
//! hyphens. A version is `major.minor.patch` — three non-empty digit runs
//! separated by dots — optionally followed by a pre-release part (`-` and
//! one or more letters, digits, dots or hyphens) and a build part (`+` and
//! the same class).

use vstd::prelude::*;

use crate::strutil::{digit_char, ident_char, is_digit_char, is_ident_char, is_name_char, name_char};

verus! {

/// The name pattern: non-empty, every character a letter, digit,
/// underscore or hyphen.
pub open spec fn is_name(s: Seq<char>) -> bool {
    s.len() > 0 && forall|i: int| 0 <= i < s.len() ==> is_name_char(#[trigger] s[i])
}

/// Whether `s` matches the name pattern.
pub fn is_valid_name(s: &str) -> (r: bool)
    ensures
        r == is_name(s@),
{
    let n = s.unicode_len();
    if n == 0 {
        return false;
    }
    let mut i: usize = 0;
    while i < n
        invariant
            n == s@.len(),
            i <= n,
            forall|j: int| 0 <= j < i ==> is_name_char(#[trigger] s@[j]),
        decreases n - i,
    {
        if !name_char(s.get_char(i)) {
            return false;
        }
        i = i + 1;
    }
    true
}

/// A non-empty all-digit sequence.
pub open spec fn all_digits(s: Seq<char>) -> bool {
    s.len() > 0 && forall|i: int| 0 <= i < s.len() ==> is_digit_char(#[trigger] s[i])
}

/// A non-empty sequence of pre-release/build characters.
pub open spec fn all_idents(s: Seq<char>) -> bool {
    s.len() > 0 && forall|i: int| 0 <= i < s.len() ==> is_ident_char(#[trigger] s[i])
}

/// An optional pre-release part: empty, or a hyphen followed by ident
/// characters.
pub open spec fn opt_pre(s: Seq<char>) -> bool {
    s.len() == 0 || (s[0] == '-' && all_idents(s.drop_first()))
}

/// An optional build part: empty, or a plus followed by ident characters.
pub open spec fn opt_build(s: Seq<char>) -> bool {
    s.len() == 0 || (s[0] == '+' && all_idents(s.drop_first()))
}

/// The version pattern: three non-empty digit runs separated by dots, then
/// an optional pre-release part, then an optional build part.
pub open spec fn is_semver(s: Seq<char>) -> bool {
    exists|a: Seq<char>, b: Seq<char>, c: Seq<char>, pre: Seq<char>, build: Seq<char>|
        {
            &&& s == a + seq!['.'] + b + seq!['.'] + c + pre + build
            &&& all_digits(a)
            &&& all_digits(b)
            &&& all_digits(c)
            &&& opt_pre(pre)
            &&& opt_build(build)
        }
}

/// The end of the digit run that starts at `i`: the first index at or after
/// `i` holding a non-digit, or the length.
pub open spec fn digit_end(s: Seq<char>, i: int) -> int
    recommends
        0 <= i <= s.len(),
    decreases s.len() - i when 0 <= i <= s.len()
{
    if i >= s.len() || !is_digit_char(s[i]) {
        i
    } else {
        digit_end(s, i + 1)
    }
}

/// The end of the ident-character run that starts at `i`.
pub open spec fn ident_end(s: Seq<char>, i: int) -> int
    recommends
        0 <= i <= s.len(),
    decreases s.len() - i when 0 <= i <= s.len()
{
    if i >= s.len() || !is_ident_char(s[i]) {
        i
    } else {
        ident_end(s, i + 1)
    }
}

/// `digit_end` is the unique boundary of a digit run.
proof fn lemma_digit_end_forced(s: Seq<char>, from: int, e: int)
    requires
        0 <= from <= e <= s.len(),
        forall|j: int| from <= j < e ==> is_digit_char(#[trigger] s[j]),
        e == s.len() || !is_digit_char(s[e]),
    ensures
        digit_end(s, from) == e,
    decreases e - from,
{
    if from < e {
        lemma_digit_end_forced(s, from + 1, e);
    }
}

/// `ident_end` is the unique boundary of an ident run.
proof fn lemma_ident_end_forced(s: Seq<char>, from: int, e: int)
    requires
        0 <= from <= e <= s.len(),
        forall|j: int| from <= j < e ==> is_ident_char(#[trigger] s[j]),
        e == s.len() || !is_ident_char(s[e]),
    ensures
        ident_end(s, from) == e,
    decreases e - from,
{
    if from < e {
        lemma_ident_end_forced(s, from + 1, e);
    }
}

/// Basic bounds and membership facts about `digit_end`.
proof fn lemma_digit_end_facts(s: Seq<char>, from: int)
    requires
        0 <= from <= s.len(),
    ensures
        from <= digit_end(s, from) <= s.len(),
        forall|j: int| from <= j < digit_end(s, from) ==> is_digit_char(#[trigger] s[j]),
        digit_end(s, from) < s.len() ==> !is_digit_char(s[digit_end(s, from)]),
    decreases s.len() - from,
{
    if from < s.len() && is_digit_char(s[from]) {
        lemma_digit_end_facts(s, from + 1);
    }
}

/// Basic bounds and membership facts about `ident_end`.
proof fn lemma_ident_end_facts(s: Seq<char>, from: int)
    requires
        0 <= from <= s.len(),
    ensures
        from <= ident_end(s, from) <= s.len(),
        forall|j: int| from <= j < ident_end(s, from) ==> is_ident_char(#[trigger] s[j]),
        ident_end(s, from) < s.len() ==> !is_ident_char(s[ident_end(s, from)]),
    decreases s.len() - from,
{
    if from < s.len() && is_ident_char(s[from]) {
        lemma_ident_end_facts(s, from + 1);
    }
}

/// The deterministic reading of the version pattern: the boundaries of the
/// three digit runs and of the pre-release and build parts are forced, so
/// the pattern holds exactly when the scan below succeeds.
pub open spec fn semver_canon(s: Seq<char>) -> bool {
    let e1 = digit_end(s, 0);
    let e2 = digit_end(s, e1 + 1);
    let e3 = digit_end(s, e2 + 1);
    &&& 0 < e1 < s.len() && s[e1] == '.'
    &&& e1 + 1 < e2 < s.len() && s[e2] == '.'
    &&& e2 + 1 < e3
    &&& semver_tail_canon(s, e3)
}

/// The deterministic reading of the optional pre-release and build parts,
/// starting at `p`.
pub open spec fn semver_tail_canon(s: Seq<char>, p: int) -> bool {
    ||| p == s.len()
    ||| (p < s.len() && s[p] == '-' && {
        let q = ident_end(s, p + 1);
        &&& q > p + 1
        &&& (q == s.len() || semver_build_canon(s, q))
    })
    ||| (p < s.len() && s[p] == '+' && semver_build_canon(s, p))
}

/// The deterministic reading of the build part: a plus at `q`, then ident
/// characters to the end, at least one.
pub open spec fn semver_build_canon(s: Seq<char>, q: int) -> bool {
    &&& 0 <= q < s.len()
    &&& s[q] == '+'
    &&& q + 1 < s.len()
    &&& ident_end(s, q + 1) == s.len()
}

/// A decomposition into the five pattern parts forces the boundaries that
/// the deterministic scan computes.
proof fn lemma_semver_to_canon(
    s: Seq<char>,
    a: Seq<char>,
    b: Seq<char>,
    c: Seq<char>,
    pre: Seq<char>,
    build: Seq<char>,
)
    requires
        s == a + seq!['.'] + b + seq!['.'] + c + pre + build,
        all_digits(a),
        all_digits(b),
        all_digits(c),
        opt_pre(pre),
        opt_build(build),
    ensures
        semver_canon(s),
{
    let la = a.len() as int;
    let lb = b.len() as int;
    let lc = c.len() as int;
    let lp = pre.len() as int;
    let lu = build.len() as int;
    assert(s.len() == la + 1 + lb + 1 + lc + lp + lu);
    assert(forall|j: int| 0 <= j < la ==> s[j] == a[j]);
    assert(s[la] == '.');
    assert(forall|j: int| 0 <= j < lb ==> s[la + 1 + j] == b[j]);
    assert(s[la + 1 + lb] == '.');
    assert(forall|j: int| 0 <= j < lc ==> s[la + lb + 2 + j] == c[j]);
    let p = la + lb + lc + 2;
    assert(forall|j: int| 0 <= j < lp ==> s[p + j] == pre[j]);
    assert(forall|j: int| 0 <= j < lu ==> s[p + lp + j] == build[j]);

    assert(forall|j: int| 0 <= j < la ==> is_digit_char(#[trigger] s[j]));
    lemma_digit_end_forced(s, 0, la);
    assert(forall|j: int| la + 1 <= j < la + 1 + lb ==> is_digit_char(#[trigger] s[j]));
    lemma_digit_end_forced(s, la + 1, la + 1 + lb);
    assert(forall|j: int| la + lb + 2 <= j < p ==> is_digit_char(#[trigger] s[j]));
    // the character after the patch run, if any, opens the pre-release or
    // build part and is not a digit
    if lp > 0 {
        assert(s[p] == '-');
    } else if lu > 0 {
        assert(s[p] == build[0]);
        assert(s[p] == '+');
    }
    lemma_digit_end_forced(s, la + lb + 2, p);

    if lp == 0 && lu == 0 {
        assert(p == s.len());
    } else if lp > 0 {
        assert(s[p] == '-');
        assert(forall|j: int| p + 1 <= j < p + lp ==> is_ident_char(#[trigger] s[j])) by {
            assert(forall|j: int|
                p + 1 <= j < p + lp ==> s[j] == pre.drop_first()[j - p - 1]);
        }
        if lu > 0 {
            assert(s[p + lp] == '+');
            lemma_ident_end_forced(s, p + 1, p + lp);
            assert(forall|j: int| p + lp + 1 <= j < s.len() ==> is_ident_char(#[trigger] s[j]))
                by {
                assert(forall|j: int|
                    p + lp + 1 <= j < s.len() ==> s[j] == build.drop_first()[j - p - lp - 1]);
            }
            lemma_ident_end_forced(s, p + lp + 1, s.len() as int);
            assert(semver_build_canon(s, p + lp));
        } else {
            assert(p + lp == s.len());
            lemma_ident_end_forced(s, p + 1, p + lp);
        }
        assert(ident_end(s, p + 1) == p + lp);
        assert(lp >= 2);
        assert(semver_tail_canon(s, p));
    } else {
        assert(s[p] == build[0]);
        assert(s[p] == '+');
        assert(forall|j: int| p + 1 <= j < s.len() ==> is_ident_char(#[trigger] s[j])) by {
            assert(forall|j: int|
                p + 1 <= j < s.len() ==> s[j] == build.drop_first()[j - p - 1]);
        }
        lemma_ident_end_forced(s, p + 1, s.len() as int);
        assert(semver_build_canon(s, p));
    }
}

/// When the deterministic scan succeeds, the five pattern parts can be read
/// off the forced boundaries.
proof fn lemma_canon_to_semver(s: Seq<char>)
    requires
        semver_canon(s),
    ensures
        is_semver(s),
{
    let e1 = digit_end(s, 0);
    let e2 = digit_end(s, e1 + 1);
    let e3 = digit_end(s, e2 + 1);
    lemma_digit_end_facts(s, 0);
    lemma_digit_end_facts(s, e1 + 1);
    lemma_digit_end_facts(s, e2 + 1);
    let a = s.subrange(0, e1);
    let b = s.subrange(e1 + 1, e2);
    let c = s.subrange(e2 + 1, e3);
    let n = s.len() as int;
    let pre: Seq<char>;
    let build: Seq<char>;
    if e3 == n {
        pre = Seq::empty();
        build = Seq::empty();
    } else if s[e3] == '-' {
        let q = ident_end(s, e3 + 1);
        lemma_ident_end_facts(s, e3 + 1);
        pre = s.subrange(e3, q);
        build = s.subrange(q, n);
        assert(opt_pre(pre)) by {
            assert(pre[0] == '-');
            assert(forall|j: int| 0 <= j < q - e3 - 1 ==> pre.drop_first()[j] == s[e3 + 1 + j]);
        }
        if q < n {
            lemma_ident_end_facts(s, q + 1);
            assert(opt_build(build)) by {
                assert(build[0] == '+');
                assert(forall|j: int| 0 <= j < n - q - 1 ==> build.drop_first()[j] == s[q + 1 + j]);
            }
        }
    } else {
        assert(s[e3] == '+');
        pre = Seq::empty();
        build = s.subrange(e3, n);
        lemma_ident_end_facts(s, e3 + 1);
        assert(opt_build(build)) by {
            assert(build[0] == '+');
            assert(forall|j: int| 0 <= j < n - e3 - 1 ==> build.drop_first()[j] == s[e3 + 1 + j]);
        }
    }
    assert(all_digits(a)) by {
        assert(forall|j: int| 0 <= j < e1 ==> a[j] == s[j]);
    }
    assert(all_digits(b)) by {
        assert(forall|j: int| 0 <= j < e2 - e1 - 1 ==> b[j] == s[e1 + 1 + j]);
    }
    assert(all_digits(c)) by {
        assert(forall|j: int| 0 <= j < e3 - e2 - 1 ==> c[j] == s[e2 + 1 + j]);
    }
    assert(s =~= a + seq!['.'] + b + seq!['.'] + c + pre + build);
    assert({
        &&& s == a + seq!['.'] + b + seq!['.'] + c + pre + build
        &&& all_digits(a)
        &&& all_digits(b)
        &&& all_digits(c)
        &&& opt_pre(pre)
        &&& opt_build(build)
    });
}

/// The version pattern holds exactly when the deterministic scan succeeds.
pub proof fn lemma_semver_iff(s: Seq<char>)
    ensures
        is_semver(s) == semver_canon(s),
{
    if is_semver(s) {
        let (a, b, c, pre, build): (Seq<char>, Seq<char>, Seq<char>, Seq<char>, Seq<char>) =
            choose|a: Seq<char>, b: Seq<char>, c: Seq<char>, pre: Seq<char>, build: Seq<char>|
            {
                &&& s == a + seq!['.'] + b + seq!['.'] + c + pre + build
                &&& all_digits(a)
                &&& all_digits(b)
                &&& all_digits(c)
                &&& opt_pre(pre)
                &&& opt_build(build)
            };
        lemma_semver_to_canon(s, a, b, c, pre, build);
    }
    if semver_canon(s) {
        lemma_canon_to_semver(s);
    }
}

/// The end of the digit run that starts at `from`.
fn digit_run_end(s: &str, from: usize) -> (r: usize)
    requires
        from <= s@.len(),
    ensures
        from <= r <= s@.len(),
        r as int == digit_end(s@, from as int),
    decreases s@.len() - from,
{
    let n = s.unicode_len();
    let mut i: usize = from;
    while i < n
        invariant
            n == s@.len(),
            from <= i <= n,
            forall|j: int| from <= j < i ==> is_digit_char(#[trigger] s@[j]),
        decreases n - i,
    {
        if !digit_char(s.get_char(i)) {
            proof {
                lemma_digit_end_forced(s@, from as int, i as int);
            }
            return i;
        }
        i = i + 1;
    }
    proof {
        lemma_digit_end_forced(s@, from as int, n as int);
    }
    i
}

/// The end of the ident-character run that starts at `from`.
fn ident_run_end(s: &str, from: usize) -> (r: usize)
    requires
        from <= s@.len(),
    ensures
        from <= r <= s@.len(),
        r as int == ident_end(s@, from as int),
    decreases s@.len() - from,
{
    let n = s.unicode_len();
    let mut i: usize = from;
    while i < n
        invariant
            n == s@.len(),
            from <= i <= n,
            forall|j: int| from <= j < i ==> is_ident_char(#[trigger] s@[j]),
        decreases n - i,
    {
        if !ident_char(s.get_char(i)) {
            proof {
                lemma_ident_end_forced(s@, from as int, i as int);
            }
            return i;
        }
        i = i + 1;
    }
    proof {
        lemma_ident_end_forced(s@, from as int, n as int);
    }
    i
}

/// Whether `s` matches the version pattern.
pub fn is_valid_semver(s: &str) -> (r: bool)
    ensures
        r == is_semver(s@),
{
    proof {
        lemma_semver_iff(s@);
    }
    let n = s.unicode_len();
    let e1 = digit_run_end(s, 0);
    if e1 == 0 || e1 >= n || s.get_char(e1) != '.' {
        return false;
    }
    let e2 = digit_run_end(s, e1 + 1);
    if e2 <= e1 + 1 || e2 >= n || s.get_char(e2) != '.' {
        return false;
    }
    let e3 = digit_run_end(s, e2 + 1);
    if e3 <= e2 + 1 {
        return false;
    }
    if e3 == n {
        return true;
    }
    let t = s.get_char(e3);
    if t == '-' {
        let q = ident_run_end(s, e3 + 1);
        if q <= e3 + 1 {
            return false;
        }
        if q == n {
            return true;
        }
        if s.get_char(q) != '+' {
            return false;
        }
        if q + 1 >= n {
            return false;
        }
        let be = ident_run_end(s, q + 1);
        be == n
    } else if t == '+' {
        if e3 + 1 >= n {
            return false;
        }
        let be = ident_run_end(s, e3 + 1);
        be == n
    } else {
        false
    }
}

} // verus!
