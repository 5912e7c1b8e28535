//! Character-level string helpers shared by the library.

use vstd::prelude::*;
use vstd::string::*;

verus! {

/// Lexicographic "strictly less than" on character sequences (code-point order,
/// which agrees with the byte order of UTF-8 encoded `String`s).
pub open spec fn chars_lt(a: Seq<char>, b: Seq<char>) -> bool
    decreases a.len(),
{
    if b.len() == 0 {
        false
    } else if a.len() == 0 {
        true
    } else if a[0] != b[0] {
        (a[0] as int) < (b[0] as int)
    } else {
        chars_lt(a.drop_first(), b.drop_first())
    }
}

/// Whether two strings hold the same characters.
pub fn str_eq(a: &str, b: &str) -> (r: bool)
    ensures
        r == (a@ == b@),
{
    let n = a.unicode_len();
    let m = b.unicode_len();
    if n != m {
        return false;
    }
    let mut i: usize = 0;
    while i < n
        invariant
            n == a@.len(),
            m == b@.len(),
            n == m,
            i <= n,
            forall|j: int| 0 <= j < i ==> a@[j] == b@[j],
        decreases n - i,
    {
        if a.get_char(i) != b.get_char(i) {
            return false;
        }
        i = i + 1;
    }
    assert(a@ =~= b@);
    true
}

/// Whether `a` sorts strictly before `b`.
pub fn str_lt(a: &str, b: &str) -> (r: bool)
    ensures
        r == chars_lt(a@, b@),
{
    let n = a.unicode_len();
    let m = b.unicode_len();
    let mut i: usize = 0;
    assert(a@.skip(0) =~= a@);
    assert(b@.skip(0) =~= b@);
    while i < n && i < m
        invariant
            n == a@.len(),
            m == b@.len(),
            i <= n,
            i <= m,
            forall|j: int| 0 <= j < i ==> a@[j] == b@[j],
            chars_lt(a@, b@) == chars_lt(a@.skip(i as int), b@.skip(i as int)),
        decreases n - i,
    {
        let x = a.get_char(i);
        let y = b.get_char(i);
        proof {
            assert(a@.skip(i as int)[0] == x);
            assert(b@.skip(i as int)[0] == y);
        }
        if x != y {
            proof {
                assert((x as u32) as int == x as int);
                assert((y as u32) as int == y as int);
            }
            return (x as u32) < (y as u32);
        }
        proof {
            assert(a@.skip(i as int).drop_first() =~= a@.skip(i as int + 1));
            assert(b@.skip(i as int).drop_first() =~= b@.skip(i as int + 1));
        }
        i = i + 1;
    }
    proof {
        if i == n {
            assert(a@.skip(i as int).len() == 0);
        } else {
            assert(b@.skip(i as int).len() == 0);
        }
    }
    i < m
}

/// `chars_lt` is irreflexive.
pub proof fn lemma_chars_lt_irrefl(a: Seq<char>)
    ensures
        !chars_lt(a, a),
    decreases a.len(),
{
    if a.len() > 0 {
        lemma_chars_lt_irrefl(a.drop_first());
    }
}

/// `chars_lt` is total on distinct sequences.
pub proof fn lemma_chars_lt_total(a: Seq<char>, b: Seq<char>)
    ensures
        a != b ==> chars_lt(a, b) || chars_lt(b, a),
    decreases a.len(),
{
    if a.len() > 0 && b.len() > 0 && a[0] == b[0] {
        lemma_chars_lt_total(a.drop_first(), b.drop_first());
        if a.drop_first() == b.drop_first() {
            assert(a =~= seq![a[0]] + a.drop_first());
            assert(b =~= seq![b[0]] + b.drop_first());
        }
    } else if a.len() > 0 && b.len() > 0 {
        assert((a[0] as int) != (b[0] as int));
    } else if a.len() == 0 && b.len() == 0 {
        assert(a =~= b);
    }
}

/// `chars_lt` is transitive.
pub proof fn lemma_chars_lt_trans(a: Seq<char>, b: Seq<char>, c: Seq<char>)
    requires
        chars_lt(a, b),
        chars_lt(b, c),
    ensures
        chars_lt(a, c),
    decreases a.len(),
{
    if a.len() > 0 && a[0] == b[0] && b[0] == c[0] {
        lemma_chars_lt_trans(a.drop_first(), b.drop_first(), c.drop_first());
    }
}

/// The characters of `s`.
pub fn to_chars(s: &str) -> (r: Vec<char>)
    ensures
        r@ == s@,
{
    let n = s.unicode_len();
    let mut out: Vec<char> = Vec::new();
    let mut i: usize = 0;
    while i < n
        invariant
            n == s@.len(),
            i <= n,
            out@ == s@.take(i as int),
        decreases n - i,
    {
        out.push(s.get_char(i));
        assert(s@.take(i as int + 1) =~= s@.take(i as int).push(s@[i as int]));
        i = i + 1;
    }
    assert(s@.take(n as int) =~= s@);
    out
}

/// `String::from_iter` over characters: the string holding exactly `chars`.
#[verifier::external_body]
pub(crate) fn string_from_chars(chars: &Vec<char>) -> (r: String)
    ensures
        r@ == chars@,
{
    chars.iter().collect()
}

/// The string holding the characters of `s`.
pub fn owned(s: &str) -> (r: String)
    ensures
        r@ == s@,
{
    s.to_owned()
}

/// `a` followed by `b`.
pub fn concat(a: &str, b: &str) -> (r: String)
    ensures
        r@ == a@ + b@,
{
    let mut v = to_chars(a);
    let w = to_chars(b);
    let mut i: usize = 0;
    while i < w.len()
        invariant
            i <= w@.len(),
            v@ == a@ + w@.take(i as int),
        decreases w.len() - i,
    {
        v.push(w[i]);
        assert(w@.take(i as int + 1) =~= w@.take(i as int).push(w@[i as int]));
        i = i + 1;
    }
    assert(w@.take(w@.len() as int) =~= w@);
    string_from_chars(&v)
}

/// The code of `c` after ASCII lower-casing (`A`..`Z` become `a`..`z`).
pub open spec fn ascii_folded(c: char) -> u32 {
    if 65 <= (c as u32) <= 90 {
        ((c as u32) + 32) as u32
    } else {
        c as u32
    }
}

/// Whether two strings are equal when ASCII letters are compared without
/// regard to case (`str::eq_ignore_ascii_case`).
pub open spec fn same_ignoring_ascii_case(a: Seq<char>, b: Seq<char>) -> bool {
    a.len() == b.len() && forall|i: int| 0 <= i < a.len() ==> ascii_folded(a[i]) == ascii_folded(b[i])
}

fn fold_char(c: char) -> (r: u32)
    ensures
        r == ascii_folded(c),
{
    let v = c as u32;
    if 65 <= v && v <= 90 {
        v + 32
    } else {
        v
    }
}

/// Whether `a` and `b` are equal up to the case of ASCII letters.
pub fn eq_ignore_ascii_case(a: &str, b: &str) -> (r: bool)
    ensures
        r == same_ignoring_ascii_case(a@, b@),
{
    let n = a.unicode_len();
    let m = b.unicode_len();
    if n != m {
        return false;
    }
    let mut i: usize = 0;
    while i < n
        invariant
            n == a@.len(),
            m == b@.len(),
            n == m,
            i <= n,
            forall|j: int| 0 <= j < i ==> ascii_folded(a@[j]) == ascii_folded(b@[j]),
        decreases n - i,
    {
        if fold_char(a.get_char(i)) != fold_char(b.get_char(i)) {
            return false;
        }
        i = i + 1;
    }
    true
}

/// Whether `i` is where `pat` first occurs in `s`.
pub open spec fn is_first_occurrence(s: Seq<char>, pat: Seq<char>, i: int) -> bool {
    occurs_at(s, pat, i) && forall|j: int| 0 <= j < i ==> !occurs_at(s, pat, j)
}

/// Where `pat` first occurs in `s`, if anywhere.
pub open spec fn first_occurrence(s: Seq<char>, pat: Seq<char>) -> Option<int> {
    if exists|i: int| is_first_occurrence(s, pat, i) {
        Some(choose|i: int| is_first_occurrence(s, pat, i))
    } else {
        None
    }
}

/// The first occurrence is unique.
pub proof fn lemma_first_occurrence_is(s: Seq<char>, pat: Seq<char>, i: int)
    requires
        is_first_occurrence(s, pat, i),
    ensures
        first_occurrence(s, pat) == Some(i),
{
    let k = choose|k: int| is_first_occurrence(s, pat, k);
    if k < i {
        assert(!occurs_at(s, pat, k));
    }
    if k > i {
        assert(!occurs_at(s, pat, i));
    }
}

/// Without any occurrence there is no first one.
pub proof fn lemma_no_occurrence(s: Seq<char>, pat: Seq<char>)
    requires
        !contains_seq(s, pat),
    ensures
        first_occurrence(s, pat) is None,
{
    if exists|i: int| is_first_occurrence(s, pat, i) {
        let k = choose|k: int| is_first_occurrence(s, pat, k);
        assert(occurs_at(s, pat, k));
    }
}

/// Where `pat` first occurs in `s` (`str::find` counted in characters).
pub fn find_seq(s: &str, pat: &str) -> (r: Option<usize>)
    ensures
        r matches Some(i) ==> is_first_occurrence(s@, pat@, i as int) && first_occurrence(s@, pat@)
            == Some(i as int),
        r is None <==> !contains_seq(s@, pat@),
        r is None ==> first_occurrence(s@, pat@) is None,
{
    let chars = to_chars(s);
    let p = to_chars(pat);
    let mut i: usize = 0;
    while i < chars.len()
        invariant
            chars@ == s@,
            p@ == pat@,
            i <= chars@.len(),
            forall|j: int| 0 <= j < i ==> !occurs_at(s@, pat@, j),
        decreases chars.len() - i,
    {
        if chars_match_at(&chars, &p, i) {
            proof {
                assert(chars@.skip(i as int).take(p@.len() as int) =~= s@.subrange(
                    i as int,
                    i as int + pat@.len(),
                ));
                lemma_first_occurrence_is(s@, pat@, i as int);
            }
            return Some(i);
        }
        proof {
            if occurs_at(s@, pat@, i as int) {
                assert(chars@.skip(i as int).take(p@.len() as int) =~= s@.subrange(
                    i as int,
                    i as int + pat@.len(),
                ));
            }
        }
        i = i + 1;
    }
    if chars_match_at(&chars, &p, i) {
        proof {
            assert(chars@.skip(i as int).take(p@.len() as int) =~= s@.subrange(
                i as int,
                i as int + pat@.len(),
            ));
            lemma_first_occurrence_is(s@, pat@, i as int);
        }
        return Some(i);
    }
    proof {
        assert forall|j: int| !occurs_at(s@, pat@, j) by {
            if j == i as int && occurs_at(s@, pat@, j) {
                assert(chars@.skip(i as int).take(p@.len() as int) =~= s@.subrange(
                    i as int,
                    i as int + pat@.len(),
                ));
            }
        }
        lemma_no_occurrence(s@, pat@);
    }
    None
}

/// Whether `pat` occurs anywhere in `s` (`str::contains`).
pub fn contains(s: &str, pat: &str) -> (r: bool)
    ensures
        r == contains_seq(s@, pat@),
{
    find_seq(s, pat).is_some()
}

/// The characters of `s` from index `from` up to (not including) `to`.
pub fn substring(s: &str, from: usize, to: usize) -> (r: String)
    requires
        from <= to <= s@.len(),
    ensures
        r@ == s@.subrange(from as int, to as int),
{
    let mut out: Vec<char> = Vec::new();
    let mut i: usize = from;
    while i < to
        invariant
            from <= i <= to,
            to <= s@.len(),
            out@ == s@.subrange(from as int, i as int),
        decreases to - i,
    {
        out.push(s.get_char(i));
        assert(s@.subrange(from as int, i as int + 1) =~= s@.subrange(from as int, i as int).push(
            s@[i as int],
        ));
        i = i + 1;
    }
    string_from_chars(&out)
}

/// Whether `c` is white space by Unicode's `White_Space` property, as
/// `char::is_whitespace` decides it: the 25 code points U+0009..=U+000D,
/// U+0020, U+0085, U+00A0, U+1680, U+2000..=U+200A, U+2028, U+2029, U+202F,
/// U+205F and U+3000.
pub open spec fn is_white_space(c: char) -> bool {
    let u = c as u32;
    ||| 0x09 <= u <= 0x0d
    ||| u == 0x20
    ||| u == 0x85
    ||| u == 0xa0
    ||| u == 0x1680
    ||| 0x2000 <= u <= 0x200a
    ||| u == 0x2028
    ||| u == 0x2029
    ||| u == 0x202f
    ||| u == 0x205f
    ||| u == 0x3000
}

/// Whether `c` is white space (see [`is_white_space`]).
pub fn char_is_whitespace(c: char) -> (r: bool)
    ensures
        r == is_white_space(c),
{
    let u = c as u32;
    (0x09 <= u && u <= 0x0d) || u == 0x20 || u == 0x85 || u == 0xa0 || u == 0x1680 || (0x2000 <= u && u
        <= 0x200a) || u == 0x2028 || u == 0x2029 || u == 0x202f || u == 0x205f || u == 0x3000
}

/// Index of the first character of `s` at or after which only white space
/// remains to the left, i.e. the count of leading white space.
pub open spec fn leading_white(s: Seq<char>) -> int
    decreases s.len(),
{
    if s.len() == 0 || !is_white_space(s[0]) {
        0
    } else {
        1 + leading_white(s.drop_first())
    }
}

/// The count of trailing white space characters of `s`.
pub open spec fn trailing_white(s: Seq<char>) -> int
    decreases s.len(),
{
    if s.len() == 0 || !is_white_space(s.last()) {
        0
    } else {
        1 + trailing_white(s.drop_last())
    }
}

/// `s` without leading and trailing white space (`str::trim`).
pub open spec fn trimmed(s: Seq<char>) -> Seq<char> {
    let t = s.skip(leading_white(s));
    t.take(t.len() - trailing_white(t))
}

/// Whether `s` holds nothing but white space (`s.trim().is_empty()`).
pub open spec fn is_blank(s: Seq<char>) -> bool {
    forall|i: int| 0 <= i < s.len() ==> is_white_space(#[trigger] s[i])
}

proof fn lemma_leading_white_bounds(s: Seq<char>)
    ensures
        0 <= leading_white(s) <= s.len(),
        forall|i: int| 0 <= i < leading_white(s) ==> is_white_space(#[trigger] s[i]),
        leading_white(s) < s.len() ==> !is_white_space(s[leading_white(s)]),
    decreases s.len(),
{
    if s.len() > 0 && is_white_space(s[0]) {
        lemma_leading_white_bounds(s.drop_first());
        assert forall|i: int| 0 <= i < leading_white(s) implies is_white_space(#[trigger] s[i]) by {
            if i > 0 {
                assert(s[i] == s.drop_first()[i - 1]);
            }
        }
    }
}

proof fn lemma_trailing_white_bounds(s: Seq<char>)
    ensures
        0 <= trailing_white(s) <= s.len(),
        forall|i: int| s.len() - trailing_white(s) <= i < s.len() ==> is_white_space(#[trigger] s[i]),
        trailing_white(s) < s.len() ==> !is_white_space(s[s.len() - 1 - trailing_white(s)]),
    decreases s.len(),
{
    if s.len() > 0 && is_white_space(s.last()) {
        lemma_trailing_white_bounds(s.drop_last());
        assert forall|i: int| s.len() - trailing_white(s) <= i < s.len() implies is_white_space(
            #[trigger] s[i],
        ) by {
            if i < s.len() - 1 {
                assert(s[i] == s.drop_last()[i]);
            }
        }
        if trailing_white(s) < s.len() {
            assert(s[s.len() - 1 - trailing_white(s)] == s.drop_last()[s.drop_last().len() - 1
                - trailing_white(s.drop_last())]);
        }
    }
}

/// Number of leading white space characters of `s`.
fn count_leading_white(s: &Vec<char>) -> (r: usize)
    ensures
        r == leading_white(s@),
{
    let mut i: usize = 0;
    assert(s@.skip(0) =~= s@);
    while i < s.len() && char_is_whitespace(s[i])
        invariant
            i <= s@.len(),
            leading_white(s@) == i + leading_white(s@.skip(i as int)),
        decreases s.len() - i,
    {
        assert(s@.skip(i as int).drop_first() =~= s@.skip(i as int + 1));
        i = i + 1;
    }
    proof {
        if i < s.len() {
            assert(s@.skip(i as int)[0] == s@[i as int]);
        } else {
            assert(s@.skip(i as int).len() == 0);
        }
    }
    i
}

/// Number of trailing white space characters of `s`.
fn count_trailing_white(s: &Vec<char>) -> (r: usize)
    ensures
        r == trailing_white(s@),
{
    let mut k: usize = 0;
    assert(s@.take(s@.len() as int) =~= s@);
    while k < s.len() && char_is_whitespace(s[s.len() - 1 - k])
        invariant
            k <= s@.len(),
            trailing_white(s@) == k + trailing_white(s@.take(s@.len() - k)),
        decreases s.len() - k,
    {
        assert(s@.take(s@.len() - k).drop_last() =~= s@.take(s@.len() - k - 1));
        assert(s@.take(s@.len() - k).last() == s@[s@.len() - 1 - k]);
        k = k + 1;
    }
    proof {
        if k < s.len() {
            assert(s@.take(s@.len() - k).last() == s@[s@.len() - 1 - k]);
        } else {
            assert(s@.take(s@.len() - k).len() == 0);
        }
    }
    k
}

/// `str::trim`: `s` without leading and trailing white space.
pub fn trim(s: &str) -> (r: String)
    ensures
        r@ == trimmed(s@),
{
    let chars = to_chars(s);
    let lead = count_leading_white(&chars);
    proof {
        lemma_leading_white_bounds(s@);
    }
    let mut rest: Vec<char> = Vec::new();
    let mut i: usize = lead;
    while i < chars.len()
        invariant
            chars@ == s@,
            lead <= i <= chars@.len(),
            rest@ == s@.subrange(lead as int, i as int),
        decreases chars.len() - i,
    {
        rest.push(chars[i]);
        assert(s@.subrange(lead as int, i as int + 1) =~= s@.subrange(lead as int, i as int).push(
            s@[i as int],
        ));
        i = i + 1;
    }
    assert(rest@ =~= s@.skip(lead as int));
    let trail = count_trailing_white(&rest);
    proof {
        lemma_trailing_white_bounds(rest@);
    }
    let mut out: Vec<char> = Vec::new();
    let keep = rest.len() - trail;
    let mut j: usize = 0;
    while j < keep
        invariant
            keep <= rest@.len(),
            j <= keep,
            out@ == rest@.take(j as int),
        decreases keep - j,
    {
        out.push(rest[j]);
        assert(rest@.take(j as int + 1) =~= rest@.take(j as int).push(rest@[j as int]));
        j = j + 1;
    }
    string_from_chars(&out)
}

/// Whether `s` holds only white space.
pub fn trim_is_empty(s: &str) -> (r: bool)
    ensures
        r == is_blank(s@),
        r == (trimmed(s@).len() == 0),
{
    let chars = to_chars(s);
    let lead = count_leading_white(&chars);
    proof {
        lemma_leading_white_bounds(s@);
        let t = s@.skip(leading_white(s@));
        lemma_trailing_white_bounds(t);
        if lead < chars.len() {
            assert(!is_white_space(s@[lead as int]));
            assert(t[0] == s@[lead as int]);
            if trailing_white(t) == t.len() {
                assert(is_white_space(t[0]));
            }
        }
    }
    lead == chars.len()
}

/// `c` with an ASCII upper-case letter mapped to lower case.
pub open spec fn ascii_lower(c: char) -> char {
    if 65 <= (c as u32) <= 90 {
        ((c as u32) + 32) as char
    } else {
        c
    }
}

/// `str::to_ascii_lowercase`: ASCII letters lower-cased, all else kept.
pub fn to_ascii_lowercase(s: &str) -> (r: String)
    ensures
        r@ == s@.map_values(|c: char| ascii_lower(c)),
{
    let chars = to_chars(s);
    let mut out: Vec<char> = Vec::new();
    let mut i: usize = 0;
    while i < chars.len()
        invariant
            chars@ == s@,
            i <= chars@.len(),
            out@ == s@.take(i as int).map_values(|c: char| ascii_lower(c)),
        decreases chars.len() - i,
    {
        let c = chars[i];
        let v = c as u32;
        let lower = if 65 <= v && v <= 90 {
            let b = (v + 32) as u8;
            b as char
        } else {
            c
        };
        assert(lower == ascii_lower(c));
        out.push(lower);
        assert(s@.take(i as int + 1).map_values(|c: char| ascii_lower(c)) =~= s@.take(i as int).map_values(
            |c: char| ascii_lower(c),
        ).push(ascii_lower(s@[i as int])));
        i = i + 1;
    }
    assert(s@.take(i as int) =~= s@);
    string_from_chars(&out)
}

/// Whether `s` begins with `prefix`.
pub open spec fn has_prefix(s: Seq<char>, prefix: Seq<char>) -> bool {
    prefix.len() <= s.len() && s.take(prefix.len() as int) == prefix
}

/// Whether `s` begins with `prefix`.
pub fn starts_with(s: &str, prefix: &str) -> (r: bool)
    ensures
        r == has_prefix(s@, prefix@),
{
    let n = s.unicode_len();
    let m = prefix.unicode_len();
    if m > n {
        return false;
    }
    let mut i: usize = 0;
    while i < m
        invariant
            n == s@.len(),
            m == prefix@.len(),
            m <= n,
            i <= m,
            forall|j: int| 0 <= j < i ==> s@[j] == prefix@[j],
        decreases m - i,
    {
        if s.get_char(i) != prefix.get_char(i) {
            assert(s@.take(m as int)[i as int] != prefix@[i as int]);
            return false;
        }
        i = i + 1;
    }
    assert(s@.take(m as int) =~= prefix@);
    true
}

/// Whether `pat` occurs in `s` starting at index `i`.
pub open spec fn occurs_at(s: Seq<char>, pat: Seq<char>, i: int) -> bool {
    0 <= i && i + pat.len() <= s.len() && s.subrange(i, i + pat.len()) == pat
}

/// Whether `pat` occurs anywhere in `s`.
pub open spec fn contains_seq(s: Seq<char>, pat: Seq<char>) -> bool {
    exists|i: int| occurs_at(s, pat, i)
}

/// `s` with every non-overlapping occurrence of the non-empty `pat` replaced
/// by `with`, scanning left to right (the behaviour of `str::replace`).
pub open spec fn replaced(s: Seq<char>, pat: Seq<char>, with: Seq<char>) -> Seq<char>
    decreases s.len(),
{
    if pat.len() == 0 || s.len() < pat.len() {
        s
    } else if s.take(pat.len() as int) == pat {
        with + replaced(s.skip(pat.len() as int), pat, with)
    } else {
        seq![s[0]] + replaced(s.drop_first(), pat, with)
    }
}

/// Whether `pat` occurs in `chars` at `i`.
fn chars_match_at(chars: &Vec<char>, pat: &Vec<char>, i: usize) -> (r: bool)
    requires
        i <= chars@.len(),
    ensures
        r == (pat@.len() <= chars@.len() - i && chars@.skip(i as int).take(pat@.len() as int) == pat@),
{
    if pat.len() > chars.len() - i {
        return false;
    }
    let mut j: usize = 0;
    while j < pat.len()
        invariant
            i <= chars@.len(),
            pat@.len() <= chars@.len() - i,
            j <= pat@.len(),
            forall|k: int| 0 <= k < j ==> chars@[i + k] == pat@[k],
        decreases pat.len() - j,
    {
        let n = chars.len();
        assert(i + j < n);
        if chars[i + j] != pat[j] {
            assert(chars@.skip(i as int).take(pat@.len() as int)[j as int] != pat@[j as int]);
            return false;
        }
        j = j + 1;
    }
    assert(chars@.skip(i as int).take(pat@.len() as int) =~= pat@);
    true
}

/// `str::replace`: every non-overlapping occurrence of the non-empty `pat`,
/// scanning left to right, replaced by `with`.
pub fn replace_all(s: &str, pat: &str, with: &str) -> (r: String)
    requires
        pat@.len() > 0,
    ensures
        r@ == replaced(s@, pat@, with@),
{
    let chars = to_chars(s);
    let p = to_chars(pat);
    let w = to_chars(with);
    let mut out: Vec<char> = Vec::new();
    let mut i: usize = 0;
    assert(chars@.skip(0) =~= chars@);
    assert(out@ + replaced(chars@.skip(0), p@, w@) =~= replaced(s@, pat@, with@));
    while i < chars.len()
        invariant
            chars@ == s@,
            p@ == pat@,
            w@ == with@,
            p@.len() > 0,
            i <= chars@.len(),
            out@ + replaced(chars@.skip(i as int), p@, w@) == replaced(s@, pat@, with@),
        decreases chars.len() - i,
    {
        let ghost rest = chars@.skip(i as int);
        if chars_match_at(&chars, &p, i) {
            let mut k: usize = 0;
            let ghost before = out@;
            while k < w.len()
                invariant
                    k <= w@.len(),
                    out@ == before + w@.take(k as int),
                decreases w.len() - k,
            {
                out.push(w[k]);
                assert(w@.take(k as int + 1) =~= w@.take(k as int).push(w@[k as int]));
                k = k + 1;
            }
            assert(w@.take(w@.len() as int) =~= w@);
            assert(rest.skip(p@.len() as int) =~= chars@.skip(i as int + p@.len()));
            assert(out@ + replaced(chars@.skip(i as int + p@.len()), p@, w@) =~= before + (w@
                + replaced(rest.skip(p@.len() as int), p@, w@)));
            i = i + p.len();
        } else {
            let ghost before = out@;
            out.push(chars[i]);
            if chars.len() - i >= p.len() {
                assert(rest.drop_first() =~= chars@.skip(i as int + 1));
                assert(out@ + replaced(chars@.skip(i as int + 1), p@, w@) =~= before + (seq![rest[0]]
                    + replaced(rest.drop_first(), p@, w@)));
                i = i + 1;
            } else {
                // Too short for another match: the rest is copied unchanged.
                let ghost mid = out@;
                let mut k: usize = i + 1;
                while k < chars.len()
                    invariant
                        i < k <= chars@.len(),
                        out@ == mid + chars@.subrange(i as int + 1, k as int),
                    decreases chars.len() - k,
                {
                    out.push(chars[k]);
                    assert(chars@.subrange(i as int + 1, k as int + 1) =~= chars@.subrange(
                        i as int + 1,
                        k as int,
                    ).push(chars@[k as int]));
                    k = k + 1;
                }
                assert(out@ =~= before + rest);
                assert(chars@.skip(chars@.len() as int) =~= Seq::<char>::empty());
                i = chars.len();
            }
        }
    }
    assert(chars@.skip(i as int) =~= Seq::<char>::empty());
    assert(out@ + Seq::<char>::empty() =~= out@);
    string_from_chars(&out)
}

/// Decimal digits of `n` (no sign, no leading zeros; `"0"` for zero).
pub open spec fn decimal(n: nat) -> Seq<char>
    decreases n,
{
    if n < 10 {
        seq![digit_char(n)]
    } else {
        decimal(n / 10).push(digit_char(n % 10))
    }
}

/// The ASCII digit for `d < 10`.
pub open spec fn digit_char(d: nat) -> char {
    if d == 0 {
        '0'
    } else if d == 1 {
        '1'
    } else if d == 2 {
        '2'
    } else if d == 3 {
        '3'
    } else if d == 4 {
        '4'
    } else if d == 5 {
        '5'
    } else if d == 6 {
        '6'
    } else if d == 7 {
        '7'
    } else if d == 8 {
        '8'
    } else {
        '9'
    }
}

/// Value of an ASCII digit, if `c` is one.
pub open spec fn digit_value(c: char) -> Option<nat> {
    if c == '0' {
        Some(0)
    } else if c == '1' {
        Some(1)
    } else if c == '2' {
        Some(2)
    } else if c == '3' {
        Some(3)
    } else if c == '4' {
        Some(4)
    } else if c == '5' {
        Some(5)
    } else if c == '6' {
        Some(6)
    } else if c == '7' {
        Some(7)
    } else if c == '8' {
        Some(8)
    } else if c == '9' {
        Some(9)
    } else {
        None
    }
}

/// The decimal digit character of `d`.
pub fn digit_of(d: u64) -> (c: char)
    requires
        d < 10,
    ensures
        c == digit_char(d as nat),
{
    if d == 0 {
        '0'
    } else if d == 1 {
        '1'
    } else if d == 2 {
        '2'
    } else if d == 3 {
        '3'
    } else if d == 4 {
        '4'
    } else if d == 5 {
        '5'
    } else if d == 6 {
        '6'
    } else if d == 7 {
        '7'
    } else if d == 8 {
        '8'
    } else {
        '9'
    }
}

fn value_of(c: char) -> (r: Option<u64>)
    ensures
        r matches Some(d) ==> digit_value(c) == Some(d as nat) && d < 10,
        r is None ==> digit_value(c) is None,
{
    if c == '0' {
        Some(0)
    } else if c == '1' {
        Some(1)
    } else if c == '2' {
        Some(2)
    } else if c == '3' {
        Some(3)
    } else if c == '4' {
        Some(4)
    } else if c == '5' {
        Some(5)
    } else if c == '6' {
        Some(6)
    } else if c == '7' {
        Some(7)
    } else if c == '8' {
        Some(8)
    } else if c == '9' {
        Some(9)
    } else {
        None
    }
}

/// Decimal text of `n`, as `u64::to_string` writes it.
pub fn u64_to_decimal(n: u64) -> (r: String)
    ensures
        r@ == decimal(n as nat),
    decreases n,
{
    if n < 10 {
        let v = vec![digit_of(n)];
        proof {
            assert(v@ =~= decimal(n as nat));
        }
        string_from_chars(&v)
    } else {
        let head = u64_to_decimal(n / 10);
        let mut v = to_chars(head.as_str());
        v.push(digit_of(n % 10));
        string_from_chars(&v)
    }
}

/// The value of the ASCII digit string `s` (`None` if empty or if a
/// character is not a digit).
pub open spec fn digits_value(s: Seq<char>) -> Option<nat>
    decreases s.len(),
{
    if s.len() == 0 {
        None
    } else {
        match digit_value(s.last()) {
            None => None,
            Some(d) => if s.len() == 1 {
                Some(d)
            } else {
                match digits_value(s.drop_last()) {
                    Some(v) => Some(v * 10 + d),
                    None => None,
                }
            },
        }
    }
}

/// `u64::from_str` / `u32::from_str`-style decimal parsing bounded by `max`:
/// an optional leading `+`, then one or more ASCII digits, with a value at
/// most `max`.
pub open spec fn parse_unsigned(s: Seq<char>, max: nat) -> Option<nat> {
    let body = if s.len() > 0 && s[0] == '+' {
        s.drop_first()
    } else {
        s
    };
    match digits_value(body) {
        Some(v) => if v <= max {
            Some(v)
        } else {
            None
        },
        None => None,
    }
}

proof fn lemma_digits_prefix(s: Seq<char>, i: int)
    requires
        0 < i < s.len(),
        digit_value(s[i]) is Some,
    ensures
        digits_value(s.take(i + 1)) == match digits_value(s.take(i)) {
            Some(v) => Some(v * 10 + digit_value(s[i]).unwrap()),
            None => None::<nat>,
        },
{
    assert(s.take(i + 1).drop_last() =~= s.take(i));
}

proof fn lemma_digits_none_extends(s: Seq<char>, t: Seq<char>)
    requires
        digits_value(s) is None,
        s.len() > 0,
    ensures
        digits_value(s + t) is None,
    decreases t.len(),
{
    if t.len() > 0 {
        lemma_digits_none_extends(s, t.drop_last());
        assert((s + t).drop_last() =~= s + t.drop_last());
    }
}

proof fn lemma_digits_grow(s: Seq<char>, i: int)
    requires
        0 < i <= s.len(),
        digits_value(s.take(i)) is Some,
    ensures
        digits_value(s) is Some ==> digits_value(s).unwrap() >= digits_value(s.take(i)).unwrap(),
    decreases s.len() - i,
{
    if i < s.len() {
        if digit_value(s[i]) is Some {
            lemma_digits_prefix(s, i);
            lemma_digits_grow(s, i + 1);
        } else {
            assert(s.take(i + 1).drop_last() =~= s.take(i));
            assert(digits_value(s.take(i + 1)) is None);
            lemma_digits_none_extends(s.take(i + 1), s.skip(i + 1));
            assert(s.take(i + 1) + s.skip(i + 1) =~= s);
        }
    } else {
        assert(s.take(i) =~= s);
    }
}

/// Parse `s` as an unsigned decimal no larger than `max`, per [`parse_unsigned`].
pub fn parse_decimal(s: &str, max: u64) -> (r: Option<u64>)
    ensures
        r matches Some(v) ==> parse_unsigned(s@, max as nat) == Some(v as nat),
        r is None ==> parse_unsigned(s@, max as nat) is None,
{
    let chars = to_chars(s);
    let start: usize = if chars.len() > 0 && chars[0] == '+' {
        1
    } else {
        0
    };
    let ghost body = if s@.len() > 0 && s@[0] == '+' {
        s@.drop_first()
    } else {
        s@
    };
    assert(body =~= chars@.skip(start as int));
    if start >= chars.len() {
        assert(body.len() == 0);
        return None;
    }
    let mut acc: u64 = 0;
    let mut i: usize = start;
    while i < chars.len()
        invariant
            chars@ == s@,
            body == chars@.skip(start as int),
            body == (if s@.len() > 0 && s@[0] == '+' {
                s@.drop_first()
            } else {
                s@
            }),
            start < chars@.len(),
            start <= i <= chars@.len(),
            i > start ==> digits_value(body.take(i - start)) == Some(acc as nat),
            i == start ==> acc == 0,
            acc <= max,
        decreases chars.len() - i,
    {
        let c = chars[i];
        let ghost k = (i - start) as int;
        assert(body[k] == c);
        match value_of(c) {
            None => {
                proof {
                    assert(body.take(k + 1).drop_last() =~= body.take(k));
                    assert(body.take(k + 1).last() == c);
                    assert(digits_value(body.take(k + 1)) is None);
                    lemma_digits_none_extends(body.take(k + 1), body.skip(k + 1));
                    assert(body.take(k + 1) + body.skip(k + 1) =~= body);
                    assert(digits_value(body) is None);
                }
                return None;
            },
            Some(d) => {
                proof {
                    assert(body.take(k + 1).last() == c);
                    if k > 0 {
                        lemma_digits_prefix(body, k);
                    } else {
                        assert(body.take(1).len() == 1);
                        assert(digits_value(body.take(1)) == Some(d as nat));
                    }
                }
                if d > max {
                    proof {
                        lemma_digits_grow(body, k + 1);
                    }
                    return None;
                }
                if acc > (max - d) / 10 {
                    proof {
                        assert(acc * 10 + d > max) by (nonlinear_arith)
                            requires
                                acc > (max - d) / 10,
                                d <= max,
                        ;
                        lemma_digits_grow(body, k + 1);
                    }
                    return None;
                }
                proof {
                    assert(acc * 10 + d <= max) by (nonlinear_arith)
                        requires
                            acc <= (max - d) / 10,
                            d <= max,
                    ;
                }
                acc = acc * 10 + d;
            },
        }
        i = i + 1;
    }
    assert(body.take(body.len() as int) =~= body);
    Some(acc)
}

} // verus!
