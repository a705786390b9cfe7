//! Verified building blocks for Markdown text assembly: character
//! classification, line splitting and joining, substring search, repetition,
//! and decimal formatting. Specifications are stated over `Seq<char>` views.
use vstd::prelude::*;

verus! {

/// Relies on `String::push`: appends a single character at the end.
#[verifier::external_body]
pub(crate) fn push_char(s: &mut String, c: char)
    ensures
        final(s)@ == old(s)@ + seq![c],
{
    s.push(c);
}

/// The whitespace characters the Markdown helpers treat as blank space.
pub open spec fn is_md_space(c: char) -> bool {
    c == ' ' || c == '\t' || c == '\n' || c == '\r'
}

/// Whether every character of `s` is whitespace (an all-blank text).
pub open spec fn blank(s: Seq<char>) -> bool {
    forall|i: int| 0 <= i < s.len() ==> is_md_space(s[i])
}

/// Executable check for [`is_md_space`].
pub fn char_is_space(c: char) -> (r: bool)
    ensures
        r == is_md_space(c),
{
    c == ' ' || c == '\t' || c == '\n' || c == '\r'
}

/// Executable check for [`blank`].
pub fn is_blank(s: &str) -> (r: bool)
    ensures
        r == blank(s@),
{
    let n = s.unicode_len();
    let mut i: usize = 0;
    while i < n
        invariant
            0 <= i <= n == s@.len(),
            forall|k: int| 0 <= k < i ==> is_md_space(s@[k]),
        decreases n - i,
    {
        if !char_is_space(s.get_char(i)) {
            return false;
        }
        i = i + 1;
    }
    true
}

/// Length of the longest prefix of `s` that avoids the character `c`
/// (equals `s.len()` when `c` does not occur).
pub open spec fn upto(s: Seq<char>, c: char) -> nat
    decreases s.len(),
{
    if s.len() == 0 {
        0
    } else if s[0] == c {
        0
    } else {
        (1 + upto(s.skip(1), c)) as nat
    }
}

pub proof fn lemma_upto_is(s: Seq<char>, c: char, j: int)
    requires
        0 <= j <= s.len(),
        forall|k: int| 0 <= k < j ==> s[k] != c,
        j == s.len() || s[j] == c,
    ensures
        upto(s, c) == j,
    decreases s.len(),
{
    if s.len() > 0 && s[0] != c {
        assert forall|k: int| 0 <= k < j - 1 implies s.skip(1)[k] != c by {
            assert(s.skip(1)[k] == s[k + 1]);
        }
        lemma_upto_is(s.skip(1), c, j - 1);
    }
}

/// A line with one trailing carriage return removed, as the line splitter
/// does for lines that end before a newline character.
pub open spec fn strip_cr(l: Seq<char>) -> Seq<char> {
    if l.len() > 0 && l.last() == '\r' {
        l.drop_last()
    } else {
        l
    }
}

/// The lines of `s`: split at `'\n'`, where a line body ending in `'\r'`
/// loses that carriage return, and a trailing line terminator produces no
/// final empty line.
pub open spec fn spec_lines(s: Seq<char>) -> Seq<Seq<char>>
    decreases s.len(),
{
    if s.len() == 0 {
        Seq::empty()
    } else {
        let i = upto(s, '\n');
        if i >= s.len() {
            seq![s]
        } else {
            seq![strip_cr(s.take(i as int))] + spec_lines(s.skip(i + 1 as int))
        }
    }
}

/// Splits a text into its lines, exactly as [`spec_lines`] describes.
pub fn lines(s: &str) -> (r: Vec<String>)
    ensures
        r@.map_values(|l: String| l@) == spec_lines(s@),
{
    let n = s.unicode_len();
    let mut out: Vec<String> = Vec::new();
    let mut start: usize = 0;
    let mut i: usize = 0;
    proof {
        assert(s@.skip(0) =~= s@);
        assert(out@.map_values(|l: String| l@) =~= Seq::<Seq<char>>::empty());
    }
    while i < n
        invariant
            0 <= start <= i <= n == s@.len(),
            forall|k: int| start <= k < i ==> s@[k] != '\n',
            spec_lines(s@) == out@.map_values(|l: String| l@) + spec_lines(s@.skip(start as int)),
        decreases n - i,
    {
        if s.get_char(i) == '\n' {
            let end = if i > start && s.get_char(i - 1) == '\r' {
                i - 1
            } else {
                i
            };
            let line = s.substring_char(start, end).to_owned();
            proof {
                let rest = s@.skip(start as int);
                assert forall|k: int| 0 <= k < i - start implies rest[k] != '\n' by {
                    assert(rest[k] == s@[start + k]);
                }
                assert(rest[i - start] == s@[i as int]);
                lemma_upto_is(rest, '\n', i - start);
                assert(rest.take(i - start) =~= s@.subrange(start as int, i as int));
                assert(rest.skip(i - start + 1) =~= s@.skip(i + 1));
                assert(line@ =~= strip_cr(rest.take(i - start)));
                assert(out@.push(line).map_values(|l: String| l@) =~= out@.map_values(
                    |l: String| l@,
                ).push(line@));
                assert(out@.map_values(|l: String| l@).push(line@) + spec_lines(s@.skip(i + 1))
                    =~= out@.map_values(|l: String| l@) + (seq![strip_cr(rest.take(i - start))]
                    + spec_lines(rest.skip(i - start + 1))));
            }
            out.push(line);
            start = i + 1;
        }
        i = i + 1;
    }
    if start < n {
        let line = s.substring_char(start, n).to_owned();
        proof {
            let rest = s@.skip(start as int);
            assert forall|k: int| 0 <= k < rest.len() implies rest[k] != '\n' by {
                assert(rest[k] == s@[start + k]);
            }
            lemma_upto_is(rest, '\n', rest.len() as int);
            assert(line@ =~= rest);
            assert(out@.push(line).map_values(|l: String| l@) =~= out@.map_values(
                |l: String| l@,
            ).push(line@));
            assert(out@.map_values(|l: String| l@).push(line@) =~= out@.map_values(
                |l: String| l@,
            ) + seq![rest]);
        }
        out.push(line);
    } else {
        proof {
            assert(s@.skip(start as int) =~= Seq::<char>::empty());
        }
    }
    out
}

/// The elements of `ls` concatenated with `sep` between neighbours.
pub open spec fn join_with(ls: Seq<Seq<char>>, sep: Seq<char>) -> Seq<char>
    decreases ls.len(),
{
    if ls.len() == 0 {
        Seq::empty()
    } else if ls.len() == 1 {
        ls[0]
    } else {
        join_with(ls.drop_last(), sep) + sep + ls.last()
    }
}

/// Joins strings with a separator, exactly as [`join_with`] describes.
pub fn join(ls: &Vec<String>, sep: &str) -> (r: String)
    ensures
        r@ == join_with(ls@.map_values(|l: String| l@), sep@),
{
    let ghost model = ls@.map_values(|l: String| l@);
    let mut r = String::new();
    let mut i: usize = 0;
    proof {
        assert(model.take(0) =~= Seq::<Seq<char>>::empty());
    }
    while i < ls.len()
        invariant
            0 <= i <= ls.len(),
            model == ls@.map_values(|l: String| l@),
            r@ == join_with(model.take(i as int), sep@),
        decreases ls.len() - i,
    {
        if i > 0 {
            r.append(sep);
        }
        r.append(ls[i].as_str());
        proof {
            assert(model.take(i + 1).drop_last() =~= model.take(i as int));
            assert(model.take(i + 1).last() == model[i as int]);
        }
        i = i + 1;
    }
    proof {
        assert(model.take(model.len() as int) =~= model);
    }
    r
}

/// Every line of `ls` with `p` prepended.
pub open spec fn prefixed_lines(ls: Seq<Seq<char>>, p: Seq<char>) -> Seq<Seq<char>> {
    ls.map_values(|l: Seq<char>| p + l)
}

/// Prepends `p` to every string of `ls`.
pub fn prefix_each(ls: &Vec<String>, p: &str) -> (r: Vec<String>)
    ensures
        r@.map_values(|l: String| l@) == prefixed_lines(ls@.map_values(|l: String| l@), p@),
{
    let ghost model = ls@.map_values(|l: String| l@);
    let mut r: Vec<String> = Vec::new();
    let mut i: usize = 0;
    while i < ls.len()
        invariant
            0 <= i <= ls.len(),
            model == ls@.map_values(|l: String| l@),
            r@.map_values(|l: String| l@) == prefixed_lines(model.take(i as int), p@),
        decreases ls.len() - i,
    {
        let mut line = p.to_owned();
        line.append(ls[i].as_str());
        proof {
            assert(r@.push(line).map_values(|l: String| l@) =~= r@.map_values(
                |l: String| l@,
            ).push(line@));
            assert(prefixed_lines(model.take(i + 1), p@) =~= prefixed_lines(
                model.take(i as int),
                p@,
            ).push(p@ + model[i as int]));
        }
        r.push(line);
        i = i + 1;
    }
    proof {
        assert(model.take(model.len() as int) =~= model);
    }
    r
}

/// Whether `sub` occurs in `s` starting at index `i`.
pub open spec fn has_sub_at(s: Seq<char>, sub: Seq<char>, i: int) -> bool {
    0 <= i && i + sub.len() <= s.len() && s.subrange(i, i + sub.len()) == sub
}

/// Whether `sub` occurs anywhere in `s` as a contiguous run.
pub open spec fn contains_sub(s: Seq<char>, sub: Seq<char>) -> bool {
    exists|i: int| has_sub_at(s, sub, i)
}

/// Substring search, exactly as [`contains_sub`] describes.
pub fn contains_str(s: &str, sub: &str) -> (r: bool)
    ensures
        r == contains_sub(s@, sub@),
{
    let n = s.unicode_len();
    let m = sub.unicode_len();
    if m > n {
        proof {
            assert forall|i: int| !has_sub_at(s@, sub@, i) by {}
        }
        return false;
    }
    if m == 0 {
        proof {
            assert(s@.subrange(0, 0) =~= sub@);
            assert(has_sub_at(s@, sub@, 0));
        }
        return true;
    }
    let mut i: usize = 0;
    while i <= n - m
        invariant
            0 <= i <= n - m + 1,
            1 <= m <= n == s@.len(),
            m == sub@.len(),
            forall|j: int| 0 <= j < i ==> !has_sub_at(s@, sub@, j),
        decreases n - m - i + 1,
    {
        let mut k: usize = 0;
        let mut all = true;
        while k < m
            invariant
                0 <= k <= m,
                i + m <= n,
                m == sub@.len(),
                n == s@.len(),
                all ==> forall|t: int| 0 <= t < k ==> s@[i + t] == sub@[t],
                !all ==> !has_sub_at(s@, sub@, i as int),
            decreases m - k,
        {
            if s.get_char(i + k) != sub.get_char(k) {
                proof {
                    assert(s@.subrange(i as int, i + sub@.len())[k as int] == s@[i + k]);
                }
                all = false;
                k = m;
            } else {
                k = k + 1;
            }
        }
        if all {
            proof {
                assert(s@.subrange(i as int, i + sub@.len()) =~= sub@);
                assert(has_sub_at(s@, sub@, i as int));
            }
            return true;
        }
        i = i + 1;
    }
    proof {
        assert forall|j: int| !has_sub_at(s@, sub@, j) by {
            if 0 <= j && j + sub@.len() <= s@.len() {
                assert(!has_sub_at(s@, sub@, j));
            }
        }
    }
    false
}

/// The lines of `ls` that do not contain `sub` as a substring, in order.
pub open spec fn keep_lines(ls: Seq<Seq<char>>, sub: Seq<char>) -> Seq<Seq<char>>
    decreases ls.len(),
{
    if ls.len() == 0 {
        Seq::empty()
    } else if contains_sub(ls.last(), sub) {
        keep_lines(ls.drop_last(), sub)
    } else {
        keep_lines(ls.drop_last(), sub).push(ls.last())
    }
}

/// Drops the strings that contain `sub`, exactly as [`keep_lines`] describes.
pub fn filter_not_containing(ls: &Vec<String>, sub: &str) -> (r: Vec<String>)
    ensures
        r@.map_values(|l: String| l@) == keep_lines(ls@.map_values(|l: String| l@), sub@),
{
    let ghost model = ls@.map_values(|l: String| l@);
    let mut r: Vec<String> = Vec::new();
    let mut i: usize = 0;
    proof {
        assert(model.take(0) =~= Seq::<Seq<char>>::empty());
    }
    while i < ls.len()
        invariant
            0 <= i <= ls.len(),
            model == ls@.map_values(|l: String| l@),
            r@.map_values(|l: String| l@) == keep_lines(model.take(i as int), sub@),
        decreases ls.len() - i,
    {
        proof {
            assert(model.take(i + 1).drop_last() =~= model.take(i as int));
            assert(model.take(i + 1).last() == model[i as int]);
        }
        if !contains_str(ls[i].as_str(), sub) {
            let kept = ls[i].clone();
            proof {
                assert(r@.push(kept).map_values(|l: String| l@) =~= r@.map_values(
                    |l: String| l@,
                ).push(kept@));
            }
            r.push(kept);
        }
        i = i + 1;
    }
    proof {
        assert(model.take(model.len() as int) =~= model);
    }
    r
}

/// `s` with every occurrence of a doubled newline collapsed to a single one,
/// scanning left to right.
pub open spec fn collapse_nl(s: Seq<char>) -> Seq<char>
    decreases s.len(),
{
    if s.len() >= 2 && s[0] == '\n' && s[1] == '\n' {
        seq!['\n'] + collapse_nl(s.skip(2))
    } else if s.len() >= 1 {
        seq![s[0]] + collapse_nl(s.skip(1))
    } else {
        Seq::empty()
    }
}

/// Collapses doubled newlines, exactly as [`collapse_nl`] describes.
pub fn collapse_newlines(s: &str) -> (r: String)
    ensures
        r@ == collapse_nl(s@),
{
    let n = s.unicode_len();
    let mut r = String::new();
    let mut i: usize = 0;
    proof {
        assert(s@.skip(0) =~= s@);
        assert(r@ + collapse_nl(s@) =~= collapse_nl(s@));
    }
    while i < n
        invariant
            0 <= i <= n == s@.len(),
            collapse_nl(s@) == r@ + collapse_nl(s@.skip(i as int)),
        decreases n - i,
    {
        let c = s.get_char(i);
        let ghost rest = s@.skip(i as int);
        if c == '\n' && i + 1 < n && s.get_char(i + 1) == '\n' {
            proof {
                assert(rest[0] == '\n' && rest[1] == '\n');
                assert(rest.skip(2) =~= s@.skip(i + 2));
            }
            push_char(&mut r, '\n');
            i = i + 2;
        } else {
            proof {
                assert(rest[0] == c);
                assert(!(rest.len() >= 2 && rest[0] == '\n' && rest[1] == '\n'));
                assert(rest.skip(1) =~= s@.skip(i + 1));
            }
            push_char(&mut r, c);
            i = i + 1;
        }
    }
    proof {
        assert(s@.skip(n as int) =~= Seq::<char>::empty());
        assert(r@ + Seq::<char>::empty() =~= r@);
    }
    r
}

/// `s` repeated `n` times.
pub open spec fn repeat_seq(s: Seq<char>, n: nat) -> Seq<char>
    decreases n,
{
    if n == 0 {
        Seq::empty()
    } else {
        repeat_seq(s, (n - 1) as nat) + s
    }
}

/// Repeats a string, exactly as [`repeat_seq`] describes.
pub fn repeat_str(s: &str, n: usize) -> (r: String)
    ensures
        r@ == repeat_seq(s@, n as nat),
{
    let mut r = String::new();
    let mut i: usize = 0;
    proof {
        assert(r@ =~= repeat_seq(s@, 0));
    }
    while i < n
        invariant
            0 <= i <= n,
            r@ == repeat_seq(s@, i as nat),
        decreases n - i,
    {
        r.append(s);
        i = i + 1;
    }
    r
}

/// `s` without its leading whitespace.
pub open spec fn trim_front(s: Seq<char>) -> Seq<char>
    decreases s.len(),
{
    if s.len() > 0 && is_md_space(s[0]) {
        trim_front(s.skip(1))
    } else {
        s
    }
}

/// `s` without its trailing whitespace.
pub open spec fn trim_back(s: Seq<char>) -> Seq<char>
    decreases s.len(),
{
    if s.len() > 0 && is_md_space(s.last()) {
        trim_back(s.drop_last())
    } else {
        s
    }
}

/// `s` without leading and trailing whitespace.
pub open spec fn trim_spec(s: Seq<char>) -> Seq<char> {
    trim_back(trim_front(s))
}

proof fn lemma_trim_front_is(s: Seq<char>, j: int)
    requires
        0 <= j <= s.len(),
        forall|k: int| 0 <= k < j ==> is_md_space(s[k]),
        j == s.len() || !is_md_space(s[j]),
    ensures
        trim_front(s) == s.skip(j),
    decreases j,
{
    if j == 0 {
        assert(s.skip(0) =~= s);
    } else {
        assert forall|k: int| 0 <= k < j - 1 implies is_md_space(s.skip(1)[k]) by {
            assert(s.skip(1)[k] == s[k + 1]);
        }
        lemma_trim_front_is(s.skip(1), j - 1);
        assert(s.skip(1).skip(j - 1) =~= s.skip(j));
    }
}

proof fn lemma_trim_back_is(s: Seq<char>, j: int)
    requires
        0 <= j <= s.len(),
        forall|k: int| j <= k < s.len() ==> is_md_space(s[k]),
        j == 0 || !is_md_space(s[j - 1]),
    ensures
        trim_back(s) == s.take(j),
    decreases s.len(),
{
    if j == s.len() {
        if s.len() > 0 && is_md_space(s.last()) {
            lemma_trim_back_is(s.drop_last(), j - 1);
            assert(s.drop_last().take(j - 1) =~= s.take(j - 1));
            assert(j - 1 == s.len() - 1 && is_md_space(s[j - 1]));
            assert(false);
        } else {
            assert(s.take(j) =~= s);
        }
    } else {
        lemma_trim_back_is(s.drop_last(), j);
        assert(s.drop_last().take(j) =~= s.take(j));
    }
}

/// Removes leading and trailing whitespace, exactly as [`trim_spec`]
/// describes.
pub fn trim(s: &str) -> (r: &str)
    ensures
        r@ == trim_spec(s@),
{
    let n = s.unicode_len();
    let mut a: usize = 0;
    while a < n && char_is_space(s.get_char(a))
        invariant
            0 <= a <= n == s@.len(),
            forall|k: int| 0 <= k < a ==> is_md_space(s@[k]),
        decreases n - a,
    {
        a = a + 1;
    }
    if a == n {
        proof {
            lemma_trim_front_is(s@, n as int);
            assert(s@.skip(n as int) =~= Seq::<char>::empty());
            lemma_trim_back_is(Seq::<char>::empty(), 0);
            assert(s@.subrange(a as int, a as int) =~= Seq::<char>::empty());
        }
        return s.substring_char(a, a);
    }
    let mut b: usize = n;
    while b > a && char_is_space(s.get_char(b - 1))
        invariant
            a <= b <= n,
            forall|k: int| b <= k < n ==> is_md_space(s@[k]),
        decreases b,
    {
        b = b - 1;
    }
    proof {
        lemma_trim_front_is(s@, a as int);
        let t = s@.skip(a as int);
        assert forall|k: int| b - a <= k < t.len() implies is_md_space(t[k]) by {
            assert(t[k] == s@[a + k]);
        }
        assert(b > a);
        assert(!is_md_space(s@[b - 1]));
        assert(t[b - a - 1] == s@[b - 1]);
        lemma_trim_back_is(t, b - a);
        assert(t.take(b - a) =~= s@.subrange(a as int, b as int));
    }
    s.substring_char(a, b)
}

/// Removes trailing whitespace, exactly as [`trim_back`] describes.
pub fn trim_end(s: &str) -> (r: &str)
    ensures
        r@ == trim_back(s@),
{
    let n = s.unicode_len();
    let mut b: usize = n;
    while b > 0 && char_is_space(s.get_char(b - 1))
        invariant
            0 <= b <= n == s@.len(),
            forall|k: int| b <= k < n ==> is_md_space(s@[k]),
        decreases b,
    {
        b = b - 1;
    }
    proof {
        if b > 0 {
            assert(!is_md_space(s@[b - 1]));
        }
        lemma_trim_back_is(s@, b as int);
        assert(s@.take(b as int) =~= s@.subrange(0, b as int));
    }
    s.substring_char(0, b)
}

/// Names what `str::to_lowercase` returns: the Unicode lower-case mapping
/// of a text, which depends on its characters alone.
pub uninterp spec fn lowercase_of(s: Seq<char>) -> Seq<char>;

/// Relies on `str::to_lowercase`: the Unicode lower-case mapping of the
/// text; no locale, environment or other state takes part.
#[verifier::external_body]
pub(crate) fn to_lowercase(s: &str) -> (r: String)
    ensures
        r@ == lowercase_of(s@),
{
    s.to_lowercase()
}

/// `s` with every newline character replaced by the text `rep`.
pub open spec fn replace_nl(s: Seq<char>, rep: Seq<char>) -> Seq<char>
    decreases s.len(),
{
    if s.len() == 0 {
        Seq::empty()
    } else if s[0] == '\n' {
        rep + replace_nl(s.skip(1), rep)
    } else {
        seq![s[0]] + replace_nl(s.skip(1), rep)
    }
}

/// Replaces newlines by `rep`, exactly as [`replace_nl`] describes.
pub fn replace_newlines(s: &str, rep: &str) -> (r: String)
    ensures
        r@ == replace_nl(s@, rep@),
{
    let n = s.unicode_len();
    let mut r = String::new();
    let mut i: usize = 0;
    proof {
        assert(s@.skip(0) =~= s@);
        assert(r@ + replace_nl(s@, rep@) =~= replace_nl(s@, rep@));
    }
    while i < n
        invariant
            0 <= i <= n == s@.len(),
            replace_nl(s@, rep@) == r@ + replace_nl(s@.skip(i as int), rep@),
        decreases n - i,
    {
        let c = s.get_char(i);
        let ghost rest = s@.skip(i as int);
        proof {
            assert(rest[0] == c);
            assert(rest.skip(1) =~= s@.skip(i + 1));
        }
        if c == '\n' {
            r.append(rep);
        } else {
            push_char(&mut r, c);
        }
        i = i + 1;
    }
    proof {
        assert(s@.skip(n as int) =~= Seq::<char>::empty());
        assert(r@ + Seq::<char>::empty() =~= r@);
    }
    r
}

/// The decimal digit `d` (below ten) as a character.
pub open spec fn digit_char(d: nat) -> char {
    if d == 0 {
        '0'
    } else if d == 1 {
        '1'
    } else if d == 2 {
        '2'
    } else if d == 3 {
        '3'
    } else if d == 4 {
        '4'
    } else if d == 5 {
        '5'
    } else if d == 6 {
        '6'
    } else if d == 7 {
        '7'
    } else if d == 8 {
        '8'
    } else {
        '9'
    }
}

/// The decimal digits of `n`, most significant first.
pub open spec fn dec_digits(n: nat) -> Seq<char>
    decreases n,
{
    if n < 10 {
        seq![digit_char(n)]
    } else {
        dec_digits(n / 10) + seq![digit_char(n % 10)]
    }
}

fn digit_to_char(d: usize) -> (r: char)
    requires
        d < 10,
    ensures
        r == digit_char(d as nat),
{
    if d == 0 {
        '0'
    } else if d == 1 {
        '1'
    } else if d == 2 {
        '2'
    } else if d == 3 {
        '3'
    } else if d == 4 {
        '4'
    } else if d == 5 {
        '5'
    } else if d == 6 {
        '6'
    } else if d == 7 {
        '7'
    } else if d == 8 {
        '8'
    } else {
        '9'
    }
}

/// Writes `n` in decimal, exactly as [`dec_digits`] describes.
pub fn usize_to_string(n: usize) -> (r: String)
    ensures
        r@ == dec_digits(n as nat),
{
    let mut rev: Vec<char> = Vec::new();
    let mut m = n;
    while m >= 10
        invariant
            dec_digits(n as nat) == dec_digits(m as nat) + rev@.reverse(),
        decreases m,
    {
        proof {
            assert(rev@.push(digit_char((m % 10) as nat)).reverse() =~= seq![
                digit_char((m % 10) as nat),
            ] + rev@.reverse());
            assert(dec_digits(m as nat) + rev@.reverse() =~= dec_digits((m / 10) as nat) + (seq![
                digit_char((m % 10) as nat),
            ] + rev@.reverse()));
        }
        rev.push(digit_to_char(m % 10));
        m = m / 10;
    }
    let mut r = String::new();
    push_char(&mut r, digit_to_char(m));
    proof {
        assert(r@ =~= dec_digits(m as nat));
    }
    let mut j = rev.len();
    while j > 0
        invariant
            0 <= j <= rev@.len(),
            r@ == dec_digits(m as nat) + rev@.reverse().take(rev@.len() - j),
        decreases j,
    {
        j = j - 1;
        push_char(&mut r, rev[j]);
        proof {
            assert(rev@.reverse().take(rev@.len() - j) =~= rev@.reverse().take(
                rev@.len() - j - 1,
            ).push(rev@[j as int]));
        }
    }
    proof {
        assert(rev@.reverse().take(rev@.len() as int) =~= rev@.reverse());
    }
    r
}

/// How many copies of `c` stand at the front of `s`.
pub open spec fn leading_count(s: Seq<char>, c: char) -> nat
    decreases s.len(),
{
    if s.len() > 0 && s[0] == c {
        (1 + leading_count(s.skip(1), c)) as nat
    } else {
        0
    }
}

pub proof fn lemma_leading_count(s: Seq<char>, c: char)
    ensures
        leading_count(s, c) <= s.len(),
        forall|k: int| 0 <= k < leading_count(s, c) ==> s[k] == c,
        leading_count(s, c) < s.len() ==> s[leading_count(s, c) as int] != c,
    decreases s.len(),
{
    if s.len() > 0 && s[0] == c {
        lemma_leading_count(s.skip(1), c);
        assert forall|k: int| 0 <= k < leading_count(s, c) implies s[k] == c by {
            if k > 0 {
                assert(s.skip(1)[k - 1] == c);
            }
        }
    }
}

/// How many whitespace characters stand at the front of `s`.
pub open spec fn leading_spaces(s: Seq<char>) -> nat
    decreases s.len(),
{
    if s.len() > 0 && is_md_space(s[0]) {
        (1 + leading_spaces(s.skip(1))) as nat
    } else {
        0
    }
}

pub proof fn lemma_leading_spaces(s: Seq<char>)
    ensures
        leading_spaces(s) <= s.len(),
        forall|k: int| 0 <= k < leading_spaces(s) ==> is_md_space(s[k]),
        leading_spaces(s) < s.len() ==> !is_md_space(s[leading_spaces(s) as int]),
    decreases s.len(),
{
    if s.len() > 0 && is_md_space(s[0]) {
        lemma_leading_spaces(s.skip(1));
        assert forall|k: int| 0 <= k < leading_spaces(s) implies is_md_space(s[k]) by {
            if k > 0 {
                assert(is_md_space(s.skip(1)[k - 1]));
            }
        }
    }
}

/// Counts the leading copies of `c`, exactly as [`leading_count`] describes.
pub fn count_leading(s: &str, c: char) -> (r: usize)
    ensures
        r == leading_count(s@, c),
{
    let n = s.unicode_len();
    let mut i: usize = 0;
    while i < n && s.get_char(i) == c
        invariant
            0 <= i <= n == s@.len(),
            forall|k: int| 0 <= k < i ==> s@[k] == c,
        decreases n - i,
    {
        i = i + 1;
    }
    proof {
        lemma_leading_count_is(s@, c, i as int);
    }
    i
}

proof fn lemma_leading_count_is(s: Seq<char>, c: char, j: int)
    requires
        0 <= j <= s.len(),
        forall|k: int| 0 <= k < j ==> s[k] == c,
        j == s.len() || s[j] != c,
    ensures
        leading_count(s, c) == j,
    decreases s.len(),
{
    if s.len() > 0 && s[0] == c {
        assert forall|k: int| 0 <= k < j - 1 implies s.skip(1)[k] == c by {
            assert(s.skip(1)[k] == s[k + 1]);
        }
        lemma_leading_count_is(s.skip(1), c, j - 1);
    }
}

/// Counts the leading whitespace, exactly as [`leading_spaces`] describes.
pub fn count_leading_spaces(s: &str, from: usize) -> (r: usize)
    requires
        from <= s@.len(),
    ensures
        r == leading_spaces(s@.skip(from as int)),
{
    let n = s.unicode_len();
    let mut i: usize = from;
    while i < n && char_is_space(s.get_char(i))
        invariant
            from <= i <= n == s@.len(),
            forall|k: int| from <= k < i ==> is_md_space(s@[k]),
        decreases n - i,
    {
        i = i + 1;
    }
    proof {
        let t = s@.skip(from as int);
        assert forall|k: int| 0 <= k < i - from implies is_md_space(t[k]) by {
            assert(t[k] == s@[from + k]);
        }
        if i < n {
            assert(t[i - from] == s@[i as int]);
        }
        lemma_leading_spaces_is(t, i - from);
    }
    i - from
}

proof fn lemma_leading_spaces_is(s: Seq<char>, j: int)
    requires
        0 <= j <= s.len(),
        forall|k: int| 0 <= k < j ==> is_md_space(s[k]),
        j == s.len() || !is_md_space(s[j]),
    ensures
        leading_spaces(s) == j,
    decreases s.len(),
{
    if s.len() > 0 && is_md_space(s[0]) {
        assert forall|k: int| 0 <= k < j - 1 implies is_md_space(s.skip(1)[k]) by {
            assert(s.skip(1)[k] == s[k + 1]);
        }
        lemma_leading_spaces_is(s.skip(1), j - 1);
    }
}

/// Whether `p` is a prefix of `s`.
pub open spec fn starts_with(s: Seq<char>, p: Seq<char>) -> bool {
    s.len() >= p.len() && s.take(p.len() as int) == p
}

/// Prefix test, exactly as [`starts_with`] describes.
pub fn str_starts_with(s: &str, p: &str) -> (r: bool)
    ensures
        r == starts_with(s@, p@),
{
    let n = s.unicode_len();
    let m = p.unicode_len();
    if m > n {
        return false;
    }
    let mut i: usize = 0;
    while i < m
        invariant
            0 <= i <= m == p@.len(),
            m <= n == s@.len(),
            forall|k: int| 0 <= k < i ==> s@[k] == p@[k],
        decreases m - i,
    {
        if s.get_char(i) != p.get_char(i) {
            proof {
                assert(s@.take(p@.len() as int)[i as int] == s@[i as int]);
            }
            return false;
        }
        i = i + 1;
    }
    proof {
        assert(s@.take(p@.len() as int) =~= p@);
    }
    true
}

/// Everything after the first comma of `s`, or the empty text when `s`
/// holds no comma.
pub open spec fn after_comma(s: Seq<char>) -> Seq<char> {
    if upto(s, ',') < s.len() {
        s.skip(upto(s, ',') + 1 as int)
    } else {
        Seq::empty()
    }
}

/// Splits off the part after the first comma, exactly as [`after_comma`]
/// describes.
pub fn split_after_comma(s: &str) -> (r: String)
    ensures
        r@ == after_comma(s@),
{
    let n = s.unicode_len();
    let mut i: usize = 0;
    while i < n && s.get_char(i) != ','
        invariant
            0 <= i <= n == s@.len(),
            forall|k: int| 0 <= k < i ==> s@[k] != ',',
        decreases n - i,
    {
        i = i + 1;
    }
    proof {
        lemma_upto_is(s@, ',', i as int);
    }
    if i < n {
        s.substring_char(i + 1, n).to_owned()
    } else {
        String::new()
    }
}

} // verus!
