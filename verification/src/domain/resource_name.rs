//! Validated resource name: raw input in any case becomes PascalCase.

use vstd::prelude::*;
use vstd::string::StrSliceExecFns;
use vstd::string::StringExecFns;

use crate::error::{is_invalid_name, CliError};
use crate::text::{char_code, chars_of};

verus! {

/// `c` is an ASCII letter or digit.
pub open spec fn is_ascii_alnum(c: char) -> bool {
    (48 <= c as int <= 57) || (65 <= c as int <= 90) || (97 <= c as int <= 122)
}

/// `c` has the Unicode general category `Cc` (what `char::is_control` tests).
pub open spec fn is_control(c: char) -> bool {
    (c as int) <= 0x1f || (0x7f <= c as int <= 0x9f)
}

/// `c` has the Unicode `White_Space` property (what `char::is_whitespace` and
/// `str::trim` go by).
pub open spec fn is_white_space(c: char) -> bool {
    let u = c as int;
    (0x9 <= u <= 0xd) || u == 0x20 || u == 0x85 || u == 0xa0 || u == 0x1680 || (0x2000 <= u
        <= 0x200a) || u == 0x2028 || u == 0x2029 || u == 0x202f || u == 0x205f || u == 0x3000
}

/// `c` may appear in a resource name: an ASCII letter or digit, `-`, `_` or a space.
pub open spec fn is_name_char(c: char) -> bool {
    is_ascii_alnum(c) || c == '-' || c == '_' || c == ' '
}

/// `s` without its leading white space.
pub open spec fn trim_start(s: Seq<char>) -> Seq<char>
    decreases s.len(),
{
    if s.len() > 0 && is_white_space(s[0]) {
        trim_start(s.drop_first())
    } else {
        s
    }
}

/// `s` without its trailing white space.
pub open spec fn trim_end(s: Seq<char>) -> Seq<char>
    decreases s.len(),
{
    if s.len() > 0 && is_white_space(s.last()) {
        trim_end(s.drop_last())
    } else {
        s
    }
}

/// `s` without leading and trailing white space (what `str::trim` returns).
pub open spec fn trim(s: Seq<char>) -> Seq<char> {
    trim_end(trim_start(s))
}

/// Every character of `s` is ASCII.
pub open spec fn is_ascii_seq(s: Seq<char>) -> bool {
    forall|i: int| 0 <= i < s.len() ==> (s[i] as int) < 128
}

/// Code point of `c` with ASCII upper case folded to lower case.
pub open spec fn fold_code(c: char) -> int {
    if 65 <= c as int <= 90 {
        c as int + 32
    } else {
        c as int
    }
}

/// The code points of `s`, ASCII case folded.
pub open spec fn ascii_fold(s: Seq<char>) -> Seq<int> {
    s.map_values(|c: char| fold_code(c))
}

/// The ASCII letters and digits of `s`, in order and case folded.
pub open spec fn alnum_folded(s: Seq<char>) -> Seq<int>
    decreases s.len(),
{
    if s.len() == 0 {
        Seq::<int>::empty()
    } else if is_ascii_alnum(s.last()) {
        alnum_folded(s.drop_last()).push(fold_code(s.last()))
    } else {
        alnum_folded(s.drop_last())
    }
}

/// The maximal runs of ASCII letters and digits of `s`, in order: on an
/// ASCII string, the words that heck splits it into before it looks at case.
pub open spec fn alnum_runs(s: Seq<char>) -> Seq<Seq<char>>
    decreases s.len(),
{
    if s.len() == 0 {
        Seq::<Seq<char>>::empty()
    } else if !is_ascii_alnum(s.last()) {
        alnum_runs(s.drop_last())
    } else if s.drop_last().len() > 0 && is_ascii_alnum(s.drop_last().last()) {
        let rs = alnum_runs(s.drop_last());
        rs.update(rs.len() - 1, rs.last().push(s.last()))
    } else {
        alnum_runs(s.drop_last()).push(seq![s.last()])
    }
}

/// `c` is an ASCII lower-case letter.
pub open spec fn is_ascii_lower(c: char) -> bool {
    97 <= c as int <= 122
}

/// `c` is an ASCII upper-case letter.
pub open spec fn is_ascii_upper(c: char) -> bool {
    65 <= c as int <= 90
}

/// `c` in upper case (ASCII letters only; anything else as it is).
pub open spec fn to_ascii_upper(c: char) -> char {
    if is_ascii_lower(c) {
        ((c as int) - 32) as char
    } else {
        c
    }
}

/// `c` in lower case (ASCII letters only; anything else as it is).
pub open spec fn to_ascii_lower(c: char) -> char {
    if is_ascii_upper(c) {
        ((c as int) + 32) as char
    } else {
        c
    }
}

/// The case of the last letter seen since the last word boundary.
pub enum LetterCase {
    /// No letter since the boundary.
    Boundary,
    Lower,
    Upper,
}

/// Positions (after `i`) where a new word starts inside the run `w`, by
/// heck's documented rules, with `case` the case of the last letter seen
/// since the last boundary: a word starts at an upper-case letter that
/// follows a lower-case one (digits in between keep the case), and at the
/// last of several upper-case letters when a lower-case one follows it.
pub open spec fn word_starts_from(w: Seq<char>, i: nat, case: LetterCase) -> Set<int>
    decreases w.len() - i,
{
    if i + 1 >= w.len() {
        Set::<int>::empty()
    } else {
        let c = w[i as int];
        let next = w[i + 1int];
        let after = if is_ascii_lower(c) {
            LetterCase::Lower
        } else if is_ascii_upper(c) {
            LetterCase::Upper
        } else {
            case
        };
        if after == LetterCase::Lower && is_ascii_upper(next) {
            word_starts_from(w, i + 1, LetterCase::Boundary).insert(i + 1int)
        } else if case == LetterCase::Upper && is_ascii_upper(c) && is_ascii_lower(next) {
            word_starts_from(w, i + 1, LetterCase::Boundary).insert(i as int)
        } else {
            word_starts_from(w, i + 1, after)
        }
    }
}

/// The run `w` in upper camel case: the first letter of each of its words in
/// upper case, every other letter in lower case.
pub open spec fn camel_run(w: Seq<char>) -> Seq<char> {
    Seq::new(
        w.len(),
        |j: int|
            if j == 0 || word_starts_from(w, 0, LetterCase::Boundary).contains(j) {
                to_ascii_upper(w[j])
            } else {
                to_ascii_lower(w[j])
            },
    )
}

/// The runs `runs`, each in upper camel case, one after the other.
pub open spec fn camel_runs(runs: Seq<Seq<char>>) -> Seq<char>
    decreases runs.len(),
{
    if runs.len() == 0 {
        Seq::<char>::empty()
    } else {
        camel_runs(runs.drop_last()) + camel_run(runs.last())
    }
}

/// Name for what `heck`'s `to_upper_camel_case` returns on a string.
pub uninterp spec fn upper_camel_case(s: Seq<char>) -> Seq<char>;

/// Calls `heck::ToUpperCamelCase::to_upper_camel_case` on `s`.
///
/// Trusted: the result is `upper_camel_case(s)`, and when `s` is all ASCII,
/// (1) the result, case folded, is the sequence of the ASCII letters and
/// digits of `s`, case folded, (2) every ASCII string with the same runs of
/// letters and digits gives the same result, and (3) the result is each run
/// of letters and digits in upper camel case by heck's documented word
/// boundaries (`camel_runs`). heck's `transform` splits `s`
/// at every non-alphanumeric character (on ASCII: every character that is not
/// an ASCII letter or digit), emits nothing for an empty piece, emits every
/// character of every other piece exactly once and in order, upper-casing the
/// first of each word and lower-casing the rest, and for this case writes
/// nothing between words; what it emits for a piece depends on that piece
/// alone, and on ASCII the case maps are one character to one; within a
/// piece it starts a word where its mode tracking (`word_starts_from`) says,
/// and `capitalize` upper-cases each word's first character and lower-cases
/// the rest. For non-ASCII input only the name is stated.
#[verifier::external_body]
fn to_upper_camel_case(s: &str) -> (r: String)
    ensures
        r@ == upper_camel_case(s@),
        is_ascii_seq(s@) ==> ascii_fold(r@) == alnum_folded(s@),
        is_ascii_seq(s@) ==> forall|t: Seq<char>|
            #![trigger upper_camel_case(t)]
            is_ascii_seq(t) && alnum_runs(t) == alnum_runs(s@) ==> upper_camel_case(t) == r@,
        is_ascii_seq(s@) ==> r@ == camel_runs(alnum_runs(s@)),
{
    heck::ToUpperCamelCase::to_upper_camel_case(s)
}

/// The raw input that `ResourceName::parse` accepts: no control character, and
/// after trimming white space, non-empty, made only of ASCII letters, digits,
/// `-`, `_` and spaces, with at least one letter or digit.
pub open spec fn name_accepted(raw: Seq<char>) -> bool {
    &&& forall|i: int| 0 <= i < raw.len() ==> !is_control(#[trigger] raw[i])
    &&& trim(raw).len() > 0
    &&& forall|i: int| 0 <= i < trim(raw).len() ==> is_name_char(#[trigger] trim(raw)[i])
    &&& exists|i: int| 0 <= i < trim(raw).len() && is_ascii_alnum(#[trigger] trim(raw)[i])
}

/// A non-empty string of ASCII letters and digits.
pub open spec fn is_pascal_word(s: Seq<char>) -> bool {
    s.len() > 0 && forall|i: int| 0 <= i < s.len() ==> is_ascii_alnum(#[trigger] s[i])
}

/// `n` is the PascalCase name that `ResourceName::parse` gives for the raw
/// input `raw`: heck's upper camel case of `raw` trimmed, which every ASCII
/// string with the same runs of letters and digits shares.
pub open spec fn parsed_as(raw: Seq<char>, n: Seq<char>) -> bool {
    &&& name_accepted(raw)
    &&& n == upper_camel_case(trim(raw))
    &&& forall|t: Seq<char>|
        #![trigger upper_camel_case(t)]
        is_ascii_seq(t) && alnum_runs(t) == alnum_runs(trim(raw)) ==> upper_camel_case(t) == n
}

/// A validated, normalised resource name.
///
/// Construct via [`ResourceName::parse`]. The only accessor is
/// [`ResourceName::pascal`], which yields the PascalCase form substituted for
/// the `$NAME$` token in templates.
#[derive(Debug)]
pub struct ResourceName {
    pascal: String,
}

impl View for ResourceName {
    type V = Seq<char>;

    closed spec fn view(&self) -> Seq<char> {
        self.pascal@
    }
}

/// The folded letters and digits of `s` exist exactly when `s` has a letter or
/// digit, and are lower-case letters and digits.
proof fn lemma_alnum_folded(s: Seq<char>)
    ensures
        alnum_folded(s).len() > 0 <==> exists|i: int| 0 <= i < s.len() && is_ascii_alnum(#[trigger] s[i]),
        forall|k: int|
            0 <= k < alnum_folded(s).len() ==> (48 <= #[trigger] alnum_folded(s)[k] <= 57) || (97
                <= alnum_folded(s)[k] <= 122),
    decreases s.len(),
{
    if s.len() > 0 {
        lemma_alnum_folded(s.drop_last());
        if exists|i: int| 0 <= i < s.drop_last().len() && is_ascii_alnum(#[trigger] s.drop_last()[i]) {
            let i = choose|i: int| 0 <= i < s.drop_last().len() && is_ascii_alnum(#[trigger] s.drop_last()[i]);
            assert(is_ascii_alnum(s[i]));
        }
        if exists|i: int| 0 <= i < s.len() && is_ascii_alnum(#[trigger] s[i]) {
            let i = choose|i: int| 0 <= i < s.len() && is_ascii_alnum(#[trigger] s[i]);
            if i < s.len() - 1 {
                assert(is_ascii_alnum(s.drop_last()[i]));
            }
        }
    }
}

/// `c` is one of the word separators a name may use: `-`, `_` or a space.
pub open spec fn is_separator_char(c: char) -> bool {
    c == '-' || c == '_' || c == ' '
}

/// `a` and `b` differ at most in which separator (`-`, `_`, space) stands at
/// each place.
pub open spec fn separator_variants(a: Seq<char>, b: Seq<char>) -> bool {
    &&& a.len() == b.len()
    &&& forall|i: int|
        0 <= i < a.len() ==> #[trigger] a[i] == b[i] || (is_separator_char(a[i]) && is_separator_char(
            b[i],
        ))
}

/// The only white space in `s`, apart from control characters, is the plain
/// space.
pub open spec fn plain_white_space(s: Seq<char>) -> bool {
    forall|i: int|
        0 <= i < s.len() && is_white_space(#[trigger] s[i]) ==> s[i] == ' ' || is_control(s[i])
}

/// A last character that is no letter or digit adds no run.
proof fn lemma_runs_drop_last(s: Seq<char>)
    requires
        s.len() > 0,
        !is_ascii_alnum(s.last()),
    ensures
        alnum_runs(s) == alnum_runs(s.drop_last()),
{
}

/// Trimming white space at the end keeps the runs.
proof fn lemma_runs_trim_end(s: Seq<char>)
    ensures
        alnum_runs(trim_end(s)) == alnum_runs(s),
    decreases s.len(),
{
    if s.len() > 0 && is_white_space(s.last()) {
        lemma_runs_trim_end(s.drop_last());
        lemma_runs_drop_last(s);
    }
}

/// A first character that is no letter or digit adds no run.
proof fn lemma_runs_prepend(c: char, u: Seq<char>)
    requires
        !is_ascii_alnum(c),
    ensures
        alnum_runs(seq![c] + u) == alnum_runs(u),
    decreases u.len(),
{
    let v = seq![c] + u;
    if u.len() == 0 {
        assert(v.drop_last() =~= Seq::<char>::empty());
        assert(v.last() == c);
        assert(alnum_runs(v) == alnum_runs(v.drop_last()));
        assert(alnum_runs(u) == Seq::<Seq<char>>::empty());
    } else {
        assert(v.drop_last() =~= seq![c] + u.drop_last());
        assert(v.last() == u.last());
        lemma_runs_prepend(c, u.drop_last());
        if u.drop_last().len() > 0 {
            assert(v.drop_last().last() == u.drop_last().last());
        } else {
            assert(v.drop_last().last() == c);
        }
        assert(alnum_runs(v.drop_last()) == alnum_runs(u.drop_last()));
        if !is_ascii_alnum(u.last()) {
            assert(alnum_runs(v) == alnum_runs(u));
        } else if u.drop_last().len() > 0 && is_ascii_alnum(u.drop_last().last()) {
            assert(alnum_runs(v) == alnum_runs(u));
        } else {
            assert(alnum_runs(v) == alnum_runs(u));
        }
    }
}

/// Trimming white space at the start keeps the runs.
proof fn lemma_runs_trim_start(s: Seq<char>)
    ensures
        alnum_runs(trim_start(s)) == alnum_runs(s),
    decreases s.len(),
{
    if s.len() > 0 && is_white_space(s[0]) {
        lemma_runs_trim_start(s.drop_first());
        assert(s =~= seq![s[0]] + s.drop_first());
        lemma_runs_prepend(s[0], s.drop_first());
    }
}

/// Strings that agree on where the letters and digits are, and on them, have
/// the same runs.
proof fn lemma_runs_pointwise(s: Seq<char>, t: Seq<char>)
    requires
        s.len() == t.len(),
        forall|i: int|
            0 <= i < s.len() ==> is_ascii_alnum(#[trigger] s[i]) == is_ascii_alnum(t[i]) && (
            is_ascii_alnum(s[i]) ==> s[i] == t[i]),
    ensures
        alnum_runs(s) == alnum_runs(t),
    decreases s.len(),
{
    if s.len() > 0 {
        let n = s.len() - 1;
        assert(is_ascii_alnum(s[n]) == is_ascii_alnum(t[n]));
        lemma_runs_pointwise(s.drop_last(), t.drop_last());
        if n > 0 {
            assert(is_ascii_alnum(s[n - 1]) == is_ascii_alnum(t[n - 1]));
        }
    }
}

/// Bounds of `s` trimmed at the start, with white space before them.
proof fn lemma_trim_start_bound(s: Seq<char>) -> (a: int)
    ensures
        0 <= a <= s.len(),
        trim_start(s) == s.skip(a),
        forall|i: int| 0 <= i < a ==> is_white_space(#[trigger] s[i]),
    decreases s.len(),
{
    if s.len() > 0 && is_white_space(s[0]) {
        let a0 = lemma_trim_start_bound(s.drop_first());
        assert(s.drop_first().skip(a0) =~= s.skip(a0 + 1));
        assert forall|i: int| 0 <= i < a0 + 1 implies is_white_space(#[trigger] s[i]) by {
            if i > 0 {
                assert(s[i] == s.drop_first()[i - 1]);
            }
        }
        a0 + 1
    } else {
        assert(s.skip(0) =~= s);
        0
    }
}

/// Bound of `s` trimmed at the end, with white space after it.
proof fn lemma_trim_end_bound(s: Seq<char>) -> (b: int)
    ensures
        0 <= b <= s.len(),
        trim_end(s) == s.take(b),
        forall|i: int| b <= i < s.len() ==> is_white_space(#[trigger] s[i]),
    decreases s.len(),
{
    if s.len() > 0 && is_white_space(s.last()) {
        let b0 = lemma_trim_end_bound(s.drop_last());
        assert(s.drop_last().take(b0) =~= s.take(b0));
        assert forall|i: int| b0 <= i < s.len() implies is_white_space(#[trigger] s[i]) by {
            if i < s.len() - 1 {
                assert(s[i] == s.drop_last()[i]);
            }
        }
        b0
    } else {
        assert(s.take(s.len() as int) =~= s);
        s.len() as int
    }
}

/// Where white space is only the plain space (or a control character), a
/// name is accepted exactly when it has no control character, only letters,
/// digits, `-`, `_` and spaces, and some letter or digit.
proof fn lemma_accepted_plain(raw: Seq<char>)
    requires
        plain_white_space(raw),
    ensures
        name_accepted(raw) == {
            &&& forall|i: int| 0 <= i < raw.len() ==> !is_control(#[trigger] raw[i])
            &&& forall|i: int| 0 <= i < raw.len() ==> is_name_char(#[trigger] raw[i])
            &&& exists|i: int| 0 <= i < raw.len() && is_ascii_alnum(#[trigger] raw[i])
        },
{
    let a = lemma_trim_start_bound(raw);
    let u = raw.skip(a);
    let b = lemma_trim_end_bound(u);
    let t = trim(raw);
    assert(t == u.take(b));
    assert forall|j: int| 0 <= j < t.len() implies #[trigger] t[j] == raw[a + j] by {
        assert(t[j] == u[j]);
    }
    assert forall|i: int| 0 <= i < raw.len() && !(a <= i < a + b) implies is_white_space(
        #[trigger] raw[i],
    ) by {
        if i >= a + b {
            assert(raw[i] == u[i - a]);
        }
    }
    if name_accepted(raw) {
        assert forall|i: int| 0 <= i < raw.len() implies is_name_char(#[trigger] raw[i]) by {
            if a <= i < a + b {
                assert(is_name_char(t[i - a]));
            } else {
                assert(!is_control(raw[i]));
            }
        }
        let j = choose|j: int| 0 <= j < t.len() && is_ascii_alnum(#[trigger] t[j]);
        assert(is_ascii_alnum(raw[a + j]));
    }
    if (forall|i: int| 0 <= i < raw.len() ==> !is_control(#[trigger] raw[i])) && (forall|i: int|
        0 <= i < raw.len() ==> is_name_char(#[trigger] raw[i])) && (exists|i: int|
        0 <= i < raw.len() && is_ascii_alnum(#[trigger] raw[i])) {
        let i = choose|i: int| 0 <= i < raw.len() && is_ascii_alnum(#[trigger] raw[i]);
        if !(a <= i < a + b) {
            assert(is_white_space(raw[i]));
        }
        assert(is_ascii_alnum(t[i - a]));
        assert forall|j: int| 0 <= j < t.len() implies is_name_char(#[trigger] t[j]) by {
            assert(is_name_char(raw[a + j]));
        }
    }
}

/// Names that differ only in which separator (`-`, `_`, space) stands where
/// are accepted alike, provided their only white space, apart from control
/// characters, is the plain space. (With other white space the law fails:
/// `" \u{3000}x"` is accepted, since trimming removes both leading
/// characters, while `"-\u{3000}x"` keeps the ideographic space and is
/// refused.)
pub proof fn lemma_separator_variants_accepted_alike(raw0: Seq<char>, raw1: Seq<char>)
    requires
        separator_variants(raw0, raw1),
        plain_white_space(raw0),
    ensures
        name_accepted(raw0) == name_accepted(raw1),
{
    assert forall|i: int| 0 <= i < raw1.len() && is_white_space(#[trigger] raw1[i]) implies raw1[i]
        == ' ' || is_control(raw1[i]) by {
        assert(raw0[i] == raw1[i] || is_separator_char(raw1[i]));
    }
    lemma_accepted_plain(raw0);
    lemma_accepted_plain(raw1);
    assert forall|i: int| 0 <= i < raw0.len() implies (is_control(#[trigger] raw0[i])
        == is_control(raw1[i])) && (is_name_char(raw0[i]) == is_name_char(raw1[i])) by {
        assert(raw0[i] == raw1[i] || (is_separator_char(raw0[i]) && is_separator_char(raw1[i])));
    }
    if forall|i: int| 0 <= i < raw0.len() ==> !is_control(#[trigger] raw0[i]) {
        assert forall|i: int| 0 <= i < raw1.len() implies !is_control(#[trigger] raw1[i]) by {
            assert(!is_control(raw0[i]));
        }
    }
    if forall|i: int| 0 <= i < raw1.len() ==> !is_control(#[trigger] raw1[i]) {
        assert forall|i: int| 0 <= i < raw0.len() implies !is_control(#[trigger] raw0[i]) by {
            assert(!is_control(raw1[i]));
        }
    }
    if forall|i: int| 0 <= i < raw0.len() ==> is_name_char(#[trigger] raw0[i]) {
        assert forall|i: int| 0 <= i < raw1.len() implies is_name_char(#[trigger] raw1[i]) by {
            assert(is_name_char(raw0[i]));
        }
    }
    if forall|i: int| 0 <= i < raw1.len() ==> is_name_char(#[trigger] raw1[i]) {
        assert forall|i: int| 0 <= i < raw0.len() implies is_name_char(#[trigger] raw0[i]) by {
            assert(is_name_char(raw1[i]));
        }
    }
    assert((exists|i: int| 0 <= i < raw0.len() && is_ascii_alnum(#[trigger] raw0[i])) == (exists|i: int|
        0 <= i < raw1.len() && is_ascii_alnum(#[trigger] raw1[i]))) by {
        if exists|i: int| 0 <= i < raw0.len() && is_ascii_alnum(#[trigger] raw0[i]) {
            let i = choose|i: int| 0 <= i < raw0.len() && is_ascii_alnum(#[trigger] raw0[i]);
            assert(raw0[i] == raw1[i] || (is_separator_char(raw0[i]) && is_separator_char(raw1[i])));
            assert(is_ascii_alnum(raw1[i]));
        }
        if exists|i: int| 0 <= i < raw1.len() && is_ascii_alnum(#[trigger] raw1[i]) {
            let i = choose|i: int| 0 <= i < raw1.len() && is_ascii_alnum(#[trigger] raw1[i]);
            assert(raw0[i] == raw1[i] || (is_separator_char(raw0[i]) && is_separator_char(raw1[i])));
            assert(is_ascii_alnum(raw0[i]));
        }
    }
}

/// Names that differ only in which separator (`-`, `_`, space) stands where
/// normalise to the same PascalCase name: `user-profile`, `user_profile` and
/// `user profile` all give one name.
pub proof fn lemma_separator_variants_parse_alike(
    raw0: Seq<char>,
    raw1: Seq<char>,
    n0: Seq<char>,
    n1: Seq<char>,
)
    requires
        separator_variants(raw0, raw1),
        parsed_as(raw0, n0),
        parsed_as(raw1, n1),
    ensures
        n0 == n1,
{
    lemma_runs_trim_end(trim_start(raw0));
    lemma_runs_trim_start(raw0);
    lemma_runs_trim_end(trim_start(raw1));
    lemma_runs_trim_start(raw1);
    assert forall|i: int| 0 <= i < raw0.len() implies is_ascii_alnum(#[trigger] raw0[i])
        == is_ascii_alnum(raw1[i]) && (is_ascii_alnum(raw0[i]) ==> raw0[i] == raw1[i]) by {
        assert(raw0[i] == raw1[i] || (is_separator_char(raw0[i]) && is_separator_char(raw1[i])));
    }
    lemma_runs_pointwise(raw0, raw1);
    let t1 = trim(raw1);
    assert(is_ascii_seq(t1)) by {
        assert forall|k: int| 0 <= k < t1.len() implies (t1[k] as int) < 128 by {
            assert(is_name_char(t1[k]));
        }
    }
    assert(upper_camel_case(t1) == n0);
}

impl Clone for ResourceName {
    fn clone(&self) -> (r: Self)
        ensures
            r@ == self@,
    {
        proof {
            use_type_invariant(self);
        }
        ResourceName { pascal: self.pascal.clone() }
    }
}

impl ResourceName {
    #[verifier::type_invariant]
    spec fn well_formed(self) -> bool {
        is_pascal_word(self.pascal@)
    }

    /// The PascalCase form, e.g. `"UserProfile"`: never empty, only ASCII
    /// letters and digits.
    pub fn pascal(&self) -> (r: &str)
        ensures
            r@ == self@,
            is_pascal_word(r@),
    {
        proof {
            use_type_invariant(self);
        }
        self.pascal.as_str()
    }

    /// The name that `pascal`, the normalised form of the raw input `raw`,
    /// makes: accepted when it is a non-empty string of ASCII letters and
    /// digits, else `InvalidName(raw)`.
    pub fn from_pascal(raw: &str, pascal: String) -> (r: Result<ResourceName, CliError>)
        ensures
            r is Ok <==> is_pascal_word(pascal@),
            r matches Ok(n) ==> n@ == pascal@,
            r matches Err(e) ==> is_invalid_name(e, raw@),
    {
        let n = pascal.as_str().unicode_len();
        if n == 0 {
            return Err(CliError::InvalidName(String::from_str(raw)));
        }
        let mut i: usize = 0;
        while i < n
            invariant
                n == pascal@.len(),
                i <= n,
                forall|k: int| 0 <= k < i ==> is_ascii_alnum(#[trigger] pascal@[k]),
            decreases n - i,
        {
            let u = char_code(pascal.as_str().get_char(i));
            if !((48 <= u && u <= 57) || (65 <= u && u <= 90) || (97 <= u && u <= 122)) {
                return Err(CliError::InvalidName(String::from_str(raw)));
            }
            i = i + 1;
        }
        Ok(ResourceName { pascal })
    }

    /// Validate then transform to PascalCase.
    ///
    /// Accepts alphanumeric characters and the separators `-`, `_`, ` `.
    /// Rejects empty input, control characters, path separators (`/`, `\`),
    /// `.` (which would allow traversal like `../x`), and any input whose
    /// normalised form is empty.
    pub fn parse(raw: &str) -> (r: Result<ResourceName, CliError>)
        ensures
            r is Ok <==> name_accepted(raw@),
            r is Ok <==> {
                &&& forall|i: int| 0 <= i < raw@.len() ==> !is_control(#[trigger] raw@[i])
                &&& trim(raw@).len() > 0
                &&& forall|i: int| 0 <= i < trim(raw@).len() ==> is_name_char(#[trigger] trim(raw@)[i])
                &&& upper_camel_case(trim(raw@)).len() > 0
            },
            r matches Ok(n) ==> n@ == upper_camel_case(trim(raw@)),
            r matches Ok(n) ==> ascii_fold(n@) == alnum_folded(trim(raw@)),
            r matches Ok(n) ==> parsed_as(raw@, n@),
            r matches Ok(n) ==> n@ == camel_runs(alnum_runs(trim(raw@))),
            r matches Err(e) ==> is_invalid_name(e, raw@),
    {
        let chars = chars_of(raw);
        let n = chars.len();
        // Reject control characters on the raw input before trimming, so a
        // trailing `\t` is caught rather than silently stripped.
        let mut i: usize = 0;
        while i < n
            invariant
                chars@ == raw@,
                n == raw@.len(),
                i <= n,
                forall|k: int| 0 <= k < i ==> !is_control(#[trigger] raw@[k]),
            decreases n - i,
        {
            let c = chars[i];
            let u = char_code(c);
            if u <= 0x1f || (0x7f <= u && u <= 0x9f) {
                assert(is_control(c));
                return Err(CliError::InvalidName(String::from_str(raw)));
            }
            i = i + 1;
        }
        let (start, end) = trim_bounds(&chars);
        if start == end {
            return Err(CliError::InvalidName(String::from_str(raw)));
        }
        let ghost t = trim(raw@);
        let mut j: usize = start;
        while j < end
            invariant
                chars@ == raw@,
                start <= j <= end <= raw@.len(),
                t == raw@.subrange(start as int, end as int),
                t == trim(raw@),
                forall|k: int| 0 <= k < j - start ==> is_name_char(#[trigger] t[k]),
            decreases end - j,
        {
            let c = chars[j];
            let u = char_code(c);
            let allowed = (48 <= u && u <= 57) || (65 <= u && u <= 90) || (97 <= u && u <= 122)
                || c == '-' || c == '_' || c == ' ';
            if !allowed {
                assert(!is_name_char(trim(raw@)[j - start]));
                return Err(CliError::InvalidName(String::from_str(raw)));
            }
            j = j + 1;
        }
        let trimmed = raw.substring_char(start, end);
        assert(is_ascii_seq(t)) by {
            assert forall|k: int| 0 <= k < t.len() implies (t[k] as int) < 128 by {
                assert(is_name_char(t[k]));
            }
        }
        let pascal = to_upper_camel_case(trimmed);
        proof {
            lemma_alnum_folded(t);
            let r = pascal@;
            assert(ascii_fold(r).len() == r.len());
            assert forall|k: int| 0 <= k < r.len() implies is_ascii_alnum(#[trigger] r[k]) by {
                assert(ascii_fold(r)[k] == fold_code(r[k]));
            }
        }
        ResourceName::from_pascal(raw, pascal)
    }
}

/// Bounds `(start, end)` of `s` trimmed of white space on both ends.
fn trim_bounds(s: &Vec<char>) -> (r: (usize, usize))
    ensures
        r.0 <= r.1 <= s@.len(),
        trim(s@) == s@.subrange(r.0 as int, r.1 as int),
{
    let n = s.len();
    let mut a: usize = 0;
    assert(s@.skip(0) =~= s@);
    while a < n && is_white_space_char(s[a])
        invariant
            n == s@.len(),
            a <= n,
            trim_start(s@) == trim_start(s@.skip(a as int)),
        decreases n - a,
    {
        assert(s@.skip(a as int).drop_first() =~= s@.skip(a + 1));
        a = a + 1;
    }
    assert(trim_start(s@) == s@.skip(a as int));
    assert(s@.skip(a as int) =~= s@.subrange(a as int, n as int));
    let mut b: usize = n;
    while b > a && is_white_space_char(s[b - 1])
        invariant
            n == s@.len(),
            a <= b <= n,
            trim(s@) == trim_end(s@.subrange(a as int, b as int)),
        decreases b - a,
    {
        assert(s@.subrange(a as int, b as int).drop_last() =~= s@.subrange(a as int, b - 1));
        b = b - 1;
    }
    (a, b)
}

/// Whether `c` has the Unicode `White_Space` property.
fn is_white_space_char(c: char) -> (r: bool)
    ensures
        r == is_white_space(c),
{
    let u = char_code(c);
    (0x9 <= u && u <= 0xd) || u == 0x20 || u == 0x85 || u == 0xa0 || u == 0x1680 || (0x2000 <= u
        && u <= 0x200a) || u == 0x2028 || u == 0x2029 || u == 0x202f || u == 0x205f || u == 0x3000
}

} // verus!
