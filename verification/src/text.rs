//! Character-level string operations with exact specifications: token
//! replacement, decimal rendering of counts, and path joining.

use vstd::prelude::*;
use vstd::string::StrSliceExecFns;
use vstd::string::StringExecFns;

verus! {

/// Every non-overlapping occurrence of `pat` in `s`, scanning left to right,
/// replaced by `rep` (the behaviour of `str::replace` for a non-empty pattern).
pub open spec fn replace_all(s: Seq<char>, pat: Seq<char>, rep: Seq<char>) -> Seq<char>
    decreases s.len(),
{
    if s.len() == 0 {
        Seq::<char>::empty()
    } else if 0 < pat.len() <= s.len() && s.take(pat.len() as int) == pat {
        rep + replace_all(s.skip(pat.len() as int), pat, rep)
    } else {
        seq![s[0]] + replace_all(s.skip(1), pat, rep)
    }
}

/// How many occurrences of `pat` [`replace_all`] replaces in `s`: the
/// non-overlapping ones, scanning left to right.
pub open spec fn token_count(s: Seq<char>, pat: Seq<char>) -> nat
    decreases s.len(),
{
    if s.len() == 0 {
        0
    } else if 0 < pat.len() <= s.len() && s.take(pat.len() as int) == pat {
        1 + token_count(s.skip(pat.len() as int), pat)
    } else {
        token_count(s.skip(1), pat)
    }
}

/// Each replaced occurrence changes the length by the difference between
/// the replacement's length and the pattern's.
pub proof fn lemma_replace_all_len(s: Seq<char>, pat: Seq<char>, rep: Seq<char>)
    ensures
        replace_all(s, pat, rep).len() == s.len() + token_count(s, pat) * (rep.len() - pat.len()),
    decreases s.len(),
{
    if s.len() > 0 {
        if 0 < pat.len() <= s.len() && s.take(pat.len() as int) == pat {
            let rest = s.skip(pat.len() as int);
            lemma_replace_all_len(rest, pat, rep);
            let c = token_count(rest, pat) as int;
            let d = rep.len() - pat.len();
            assert(token_count(s, pat) == 1 + c);
            assert(replace_all(s, pat, rep).len() == rep.len() + replace_all(rest, pat, rep).len());
            assert(rest.len() == s.len() - pat.len());
            assert((1 + c) * d == d + c * d) by (nonlinear_arith);
        } else {
            lemma_replace_all_len(s.skip(1), pat, rep);
            assert(token_count(s, pat) == token_count(s.skip(1), pat));
            assert(replace_all(s, pat, rep).len() == 1 + replace_all(s.skip(1), pat, rep).len());
        }
    } else {
        assert(token_count(s, pat) == 0);
        assert(0 * (rep.len() - pat.len()) == 0) by (nonlinear_arith);
    }
}

/// Whether `pat` occurs in `s` at some position.
pub open spec fn occurs_in(s: Seq<char>, pat: Seq<char>) -> bool {
    exists|i: int| 0 <= i && i + pat.len() <= s.len() && #[trigger] s.subrange(i, i + pat.len()) == pat
}

/// The code point of `c`.
pub fn char_code(c: char) -> (u: u32)
    ensures
        u as int == c as int,
{
    c as u32
}

/// The characters of a string slice, in order.
pub fn chars_of(s: &str) -> (v: Vec<char>)
    ensures
        v@ == s@,
{
    let n = s.unicode_len();
    let mut v: Vec<char> = Vec::new();
    let mut i: usize = 0;
    while i < n
        invariant
            n == s@.len(),
            i <= n,
            v@ == s@.take(i as int),
        decreases n - i,
    {
        let c = s.get_char(i);
        v.push(c);
        i = i + 1;
        assert(v@ =~= s@.take(i as int));
    }
    assert(v@ =~= s@);
    v
}

/// Whether `pat` occurs in `s` starting at index `i`.
fn matches_at(s: &Vec<char>, i: usize, pat: &Vec<char>) -> (r: bool)
    requires
        i + pat@.len() <= s@.len(),
    ensures
        r == (s@.subrange(i as int, i + pat@.len()) == pat@),
{
    let m = pat.len();
    let mut j: usize = 0;
    while j < m
        invariant
            m == pat@.len(),
            i + m <= s@.len(),
            s@.len() == s.len(),
            j <= m,
            forall|k: int| 0 <= k < j ==> s@[i + k] == pat@[k],
        decreases m - j,
    {
        if s[i + j] != pat[j] {
            assert(s@.subrange(i as int, i + m)[j as int] != pat@[j as int]);
            return false;
        }
        j = j + 1;
    }
    assert(s@.subrange(i as int, i + m) =~= pat@);
    true
}

/// `pat` occurs in `s` at its start and nowhere else.
pub open spec fn occurs_only_at_start(s: Seq<char>, pat: Seq<char>) -> bool {
    &&& pat.len() <= s.len()
    &&& s.take(pat.len() as int) == pat
    &&& forall|i: int|
        0 < i && i + pat.len() <= s.len() ==> #[trigger] s.subrange(i, i + pat.len()) != pat
}

/// `pat` occurs nowhere in `s` when its `k`-th character does not.
pub proof fn lemma_absent_char(s: Seq<char>, pat: Seq<char>, k: int)
    requires
        0 <= k < pat.len(),
        forall|i: int| 0 <= i < s.len() ==> s[i] != pat[k],
    ensures
        !occurs_in(s, pat),
{
    if occurs_in(s, pat) {
        let i = choose|i: int|
            0 <= i && i + pat.len() <= s.len() && #[trigger] s.subrange(i, i + pat.len()) == pat;
        assert(s.subrange(i, i + pat.len())[k] == s[i + k]);
    }
}

/// `pat` occurs nowhere in `s` when its three characters from the `k`-th on
/// never stand together in `s`.
pub proof fn lemma_absent_triple(s: Seq<char>, pat: Seq<char>, k: int)
    requires
        0 <= k && k + 3 <= pat.len(),
        forall|i: int|
            0 <= i && i + 3 <= s.len() ==> !(#[trigger] s[i] == pat[k] && s[i + 1] == pat[k + 1]
                && s[i + 2] == pat[k + 2]),
    ensures
        !occurs_in(s, pat),
{
    if occurs_in(s, pat) {
        let i = choose|i: int|
            0 <= i && i + pat.len() <= s.len() && #[trigger] s.subrange(i, i + pat.len()) == pat;
        let w = s.subrange(i, i + pat.len());
        assert(w[k] == s[i + k] && w[k + 1] == s[i + k + 1] && w[k + 2] == s[i + k + 2]);
    }
}

/// `pat` occurs in `s` only at its start when `s` starts with it and the
/// `k`-th character of `pat` stands in `s` only at `k`.
pub proof fn lemma_only_at_start(s: Seq<char>, pat: Seq<char>, k: int)
    requires
        0 <= k < pat.len() <= s.len(),
        s.take(pat.len() as int) == pat,
        forall|j: int| 0 <= j < s.len() && j != k ==> s[j] != pat[k],
    ensures
        occurs_only_at_start(s, pat),
{
    assert forall|i: int| 0 < i && i + pat.len() <= s.len() implies #[trigger] s.subrange(
        i,
        i + pat.len(),
    ) != pat by {
        assert(s.subrange(i, i + pat.len())[k] == s[i + k]);
    }
}

/// Text without the first character of `pat` passes through replacement
/// unchanged.
pub proof fn lemma_replace_plain_prefix(a: Seq<char>, rest: Seq<char>, pat: Seq<char>, rep: Seq<char>)
    requires
        pat.len() > 0,
        forall|i: int| 0 <= i < a.len() ==> a[i] != pat[0],
    ensures
        replace_all(a + rest, pat, rep) == a + replace_all(rest, pat, rep),
    decreases a.len(),
{
    if a.len() > 0 {
        let s = a + rest;
        assert(s[0] == a[0]);
        if pat.len() <= s.len() && s.take(pat.len() as int) == pat {
            assert(s.take(pat.len() as int)[0] == s[0]);
        }
        assert(s.skip(1) =~= a.skip(1) + rest);
        lemma_replace_plain_prefix(a.skip(1), rest, pat, rep);
        assert(a =~= seq![a[0]] + a.skip(1));
        assert(seq![s[0]] + (a.skip(1) + replace_all(rest, pat, rep)) =~= a + replace_all(rest, pat, rep));
    } else {
        assert(a + rest =~= rest);
    }
}

/// A string that starts with `pat` has it replaced there.
pub proof fn lemma_replace_leading_token(rest: Seq<char>, pat: Seq<char>, rep: Seq<char>)
    requires
        pat.len() > 0,
    ensures
        replace_all(pat + rest, pat, rep) == rep + replace_all(rest, pat, rep),
{
    let s = pat + rest;
    assert(s.take(pat.len() as int) =~= pat);
    assert(s.skip(pat.len() as int) =~= rest);
}

/// `s` starts with `x`.
pub open spec fn starts_with(s: Seq<char>, x: Seq<char>) -> bool {
    x.len() <= s.len() && s.take(x.len() as int) == x
}

/// `s` ends with `x`.
pub open spec fn ends_with(s: Seq<char>, x: Seq<char>) -> bool {
    x.len() <= s.len() && s.skip(s.len() - x.len()) == x
}

/// `x` occurs in any text that has it between two other stretches.
pub proof fn lemma_occurs_in_middle(l: Seq<char>, x: Seq<char>, r: Seq<char>)
    ensures
        occurs_in(l + x + r, x),
{
    let s = l + x + r;
    assert(s.subrange(l.len() as int, (l.len() + x.len()) as int) =~= x);
}

/// No two neighbouring characters of `s` are the first two of `pat`.
pub open spec fn no_pair_start(s: Seq<char>, pat: Seq<char>) -> bool {
    forall|i: int| 0 <= i && i + 1 < s.len() ==> !(#[trigger] s[i] == pat[0] && s[i + 1] == pat[1])
}

/// Text in which no occurrence of `pat` can start passes through replacement
/// unchanged: no two neighbouring characters of it, nor its last character
/// and the first of what follows, are the first two of `pat`.
pub proof fn lemma_replace_no_match_prefix(a: Seq<char>, rest: Seq<char>, pat: Seq<char>, rep: Seq<char>)
    requires
        pat.len() >= 2,
        no_pair_start(a, pat),
        a.len() > 0 && rest.len() > 0 ==> !(a.last() == pat[0] && rest[0] == pat[1]),
    ensures
        replace_all(a + rest, pat, rep) == a + replace_all(rest, pat, rep),
    decreases a.len(),
{
    if a.len() > 0 {
        let s = a + rest;
        assert(s[0] == a[0]);
        if pat.len() <= s.len() && s.take(pat.len() as int) == pat {
            assert(s.take(pat.len() as int)[0] == s[0]);
            assert(s.take(pat.len() as int)[1] == s[1]);
            if a.len() >= 2 {
                assert(s[1] == a[1]);
            } else {
                assert(s[1] == rest[0]);
            }
        }
        let a1 = a.skip(1int);
        assert(s.skip(1) =~= a1 + rest);
        assert forall|i: int| 0 <= i && i + 1 < a1.len() implies !(#[trigger] a1[i] == pat[0] && a1[i + 1]
            == pat[1]) by {
            assert(a1[i] == a[i + 1] && a1[i + 1] == a[i + 2]);
        }
        if a1.len() > 0 {
            assert(a1.last() == a.last());
        }
        lemma_replace_no_match_prefix(a1, rest, pat, rep);
        assert(a =~= seq![a[0]] + a1);
        assert(seq![s[0]] + (a1 + replace_all(rest, pat, rep)) =~= a + replace_all(rest, pat, rep));
    } else {
        assert(a + rest =~= rest);
    }
}

/// `s` with every occurrence of the non-empty `pat` replaced by `rep`.
pub fn replace_all_str(s: &str, pat: &str, rep: &str) -> (r: String)
    requires
        pat@.len() > 0,
    ensures
        r@ == replace_all(s@, pat@, rep@),
{
    let sc = chars_of(s);
    let pc = chars_of(pat);
    let n = sc.len();
    let m = pc.len();
    let mut out = String::new();
    let mut seg: usize = 0;
    let mut i: usize = 0;
    assert(s@.skip(0) =~= s@);
    while i < n
        invariant
            sc@ == s@,
            pc@ == pat@,
            n == s@.len(),
            m == pat@.len(),
            m > 0,
            seg <= i <= n,
            replace_all(s@, pat@, rep@) == out@ + s@.subrange(seg as int, i as int) + replace_all(
                s@.skip(i as int),
                pat@,
                rep@,
            ),
        decreases n - i,
    {
        let ghost t = s@.skip(i as int);
        if m <= n - i && matches_at(&sc, i, &pc) {
            assert(t.take(m as int) =~= s@.subrange(i as int, i + m));
            assert(t.skip(m as int) =~= s@.skip(i + m));
            let piece = s.substring_char(seg, i);
            out.append(piece);
            out.append(rep);
            i = i + m;
            seg = i;
            assert(s@.subrange(seg as int, i as int) =~= Seq::<char>::empty());
            assert(replace_all(s@, pat@, rep@) == out@ + s@.subrange(seg as int, i as int)
                + replace_all(s@.skip(i as int), pat@, rep@));
        } else {
            assert(m <= n - i ==> t.take(m as int) =~= s@.subrange(i as int, i + m));
            assert(t.skip(1) =~= s@.skip(i + 1));
            assert(t[0] == s@[i as int]);
            assert(s@.subrange(seg as int, i as int) + seq![s@[i as int]] =~= s@.subrange(
                seg as int,
                i + 1,
            ));
            i = i + 1;
        }
    }
    let tail = s.substring_char(seg, n);
    out.append(tail);
    assert(s@.skip(n as int) =~= Seq::<char>::empty());
    assert(out@ =~= replace_all(s@, pat@, rep@));
    out
}

/// `sep` is a separator that `std::path::MAIN_SEPARATOR` can be: `/` on
/// Unix, `\` on Windows.
pub open spec fn platform_separator(sep: char) -> bool {
    sep == '/' || sep == '\\'
}

/// The platform's main path separator, `std::path::MAIN_SEPARATOR`.
///
/// Trusted: it is `/` or `\` (its documentation: `/` on Unix, `\` on
/// Windows). Which of the two it is depends on the target and is left unsaid.
#[verifier::external_body]
pub fn main_separator() -> (c: char)
    ensures
        platform_separator(c),
{
    std::path::MAIN_SEPARATOR
}

/// `c` separates path components where `sep` is the main separator: `/`
/// always, and `sep` itself (`\` on Windows).
pub open spec fn is_separator(c: char, sep: char) -> bool {
    c == '/' || c == sep
}

/// `dir` is a bare Windows drive prefix such as `C:`, after which no
/// separator is put.
pub open spec fn is_drive_prefix(dir: Seq<char>, sep: char) -> bool {
    &&& sep == '\\'
    &&& dir.len() == 2
    &&& dir[1] == ':'
    &&& ((65 <= dir[0] as int <= 90) || (97 <= dir[0] as int <= 122))
}

/// The relative `name` placed under the directory `dir`, the way `Path::join`
/// does it on a platform whose main separator is `sep`: the separator is put
/// in between unless `dir` is empty, already ends with a separator, or is a
/// bare drive prefix. (Windows verbatim paths, `\\?\...`, which `Path::join`
/// also normalises, are not followed.)
pub open spec fn join_path(dir: Seq<char>, sep: char, name: Seq<char>) -> Seq<char> {
    if dir.len() == 0 || is_separator(dir.last(), sep) || is_drive_prefix(dir, sep) {
        dir + name
    } else {
        dir + seq![sep] + name
    }
}

/// The relative `name` placed under the directory `dir`, with `sep` the main
/// separator.
pub fn join_path_str(dir: &str, sep: char, name: &str) -> (r: String)
    requires
        platform_separator(sep),
    ensures
        r@ == join_path(dir@, sep, name@),
{
    let mut s = String::from_str(dir);
    let n = dir.unicode_len();
    let needs_sep = if n == 0 {
        false
    } else {
        let last = dir.get_char(n - 1);
        if last == '/' || last == sep {
            false
        } else if sep == '\\' && n == 2 && dir.get_char(1) == ':' {
            let u = char_code(dir.get_char(0));
            !((65 <= u && u <= 90) || (97 <= u && u <= 122))
        } else {
            true
        }
    };
    if needs_sep {
        proof {
            reveal_strlit("/");
            reveal_strlit("\\");
        }
        if sep == '/' {
            s.append("/");
        } else {
            s.append("\\");
        }
    }
    s.append(name);
    s
}

/// Joining is injective in the name: under one directory, equal paths come
/// from equal names.
pub proof fn lemma_join_path_injective(dir: Seq<char>, sep: char, a: Seq<char>, b: Seq<char>)
    requires
        join_path(dir, sep, a) == join_path(dir, sep, b),
    ensures
        a == b,
{
    let p = if dir.len() == 0 || is_separator(dir.last(), sep) || is_drive_prefix(dir, sep) {
        dir
    } else {
        dir + seq![sep]
    };
    assert(join_path(dir, sep, a) =~= p + a);
    assert(join_path(dir, sep, b) =~= p + b);
    assert(a =~= (p + a).skip(p.len() as int));
    assert(b =~= (p + b).skip(p.len() as int));
}

/// The decimal digits of `n`, most significant first.
pub open spec fn decimal(n: nat) -> Seq<char>
    decreases n,
{
    if n < 10 {
        seq!["0123456789"@[n as int]]
    } else {
        decimal(n / 10).push("0123456789"@[(n % 10) as int])
    }
}

/// `n` written in decimal.
pub fn decimal_str(n: usize) -> (r: String)
    ensures
        r@ == decimal(n as nat),
    decreases n,
{
    let digits = "0123456789";
    proof {
        reveal_strlit("0123456789");
    }
    if n < 10 {
        let d = digits.substring_char(n, n + 1);
        assert(d@ =~= seq!["0123456789"@[n as int]]);
        String::from_str(d)
    } else {
        let mut s = decimal_str(n / 10);
        let k = n % 10;
        let d = digits.substring_char(k, k + 1);
        assert(d@ =~= seq!["0123456789"@[k as int]]);
        s.append(d);
        s
    }
}

} // verus!
