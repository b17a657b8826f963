//! Character-level text handling on `Seq<char>` models: whitespace,
//! trimming, line and word splitting, decimal parsing and substring search.
use vstd::prelude::*;

verus! {

/// Unicode `White_Space`, the property that `char::is_whitespace` tests.
pub open spec fn is_ws(c: char) -> bool {
    let u = c as u32;
    ||| 0x09 <= u <= 0x0d
    ||| u == 0x20
    ||| u == 0x85
    ||| u == 0xa0
    ||| u == 0x1680
    ||| 0x2000 <= u <= 0x200a
    ||| u == 0x2028
    ||| u == 0x2029
    ||| u == 0x202f
    ||| u == 0x205f
    ||| u == 0x3000
}

/// Whether `c` is Unicode white space.
pub fn is_whitespace(c: char) -> (r: bool)
    ensures
        r == is_ws(c),
{
    let u = c as u32;
    (0x09 <= u && u <= 0x0d) || u == 0x20 || u == 0x85 || u == 0xa0 || u == 0x1680 || (0x2000
        <= u && u <= 0x200a) || u == 0x2028 || u == 0x2029 || u == 0x202f || u == 0x205f || u
        == 0x3000
}

/// The characters of `s`, in order.
pub fn chars_of(s: &str) -> (v: Vec<char>)
    ensures
        v@ == s@,
{
    let mut v: Vec<char> = Vec::new();
    for c in it: s.chars()
        invariant
            v@ == it.seq().take(it.index() as int),
    {
        v.push(c);
    }
    v
}


/// Appends `c` to `s`: a call of `String::push`, which the standard
/// library documents as appending the character to the end of the string.
#[verifier::external_body]
fn push_char(s: &mut String, c: char)
    ensures
        final(s)@ == old(s)@.push(c),
{
    s.push(c);
}

/// A `String` holding the characters of `v`, in order.
pub fn string_of(v: &Vec<char>) -> (s: String)
    ensures
        s@ == v@,
{
    let mut s = String::new();
    for i in 0..v.len()
        invariant
            s@ == v@.take(i as int),
    {
        push_char(&mut s, v[i]);
        assert(v@.take(i + 1) == v@.take(i as int).push(v@[i as int]));
    }
    assert(v@.take(v@.len() as int) == v@);
    s
}

/// `a` followed by `b`, as a new `String`.
pub fn concat(a: &str, b: &str) -> (s: String)
    ensures
        s@ == a@ + b@,
{
    let mut v = chars_of(a);
    let w = chars_of(b);
    for i in 0..w.len()
        invariant
            v@ == a@ + w@.take(i as int),
            w@ == b@,
    {
        v.push(w[i]);
        assert(w@.take(i + 1) == w@.take(i as int).push(w@[i as int]));
    }
    assert(w@.take(w@.len() as int) == w@);
    string_of(&v)
}

/// Whether the characters of `v` are exactly those of `s`.
pub fn chars_eq(v: &Vec<char>, s: &str) -> (r: bool)
    ensures
        r == (v@ == s@),
{
    let w = chars_of(s);
    if v.len() != w.len() {
        return false;
    }
    for i in 0..v.len()
        invariant
            v@.len() == w@.len(),
            w@ == s@,
            forall|j: int| 0 <= j < i ==> v@[j] == w@[j],
    {
        if v[i] != w[i] {
            return false;
        }
    }
    assert(v@ =~= w@);
    true
}

/// `s` without its leading white space, as `str::trim_start` gives it.
pub open spec fn trim_start(s: Seq<char>) -> Seq<char>
    decreases s.len(),
{
    if s.len() > 0 && is_ws(s[0]) {
        trim_start(s.drop_first())
    } else {
        s
    }
}

/// `s` without its trailing white space, as `str::trim_end` gives it.
pub open spec fn trim_end(s: Seq<char>) -> Seq<char>
    decreases s.len(),
{
    if s.len() > 0 && is_ws(s.last()) {
        trim_end(s.drop_last())
    } else {
        s
    }
}

/// `s` without leading and trailing white space, as `str::trim` gives it.
pub open spec fn trim(s: Seq<char>) -> Seq<char> {
    trim_end(trim_start(s))
}

proof fn lemma_trim_start_shape(s: Seq<char>)
    ensures
        exists|a: int|
            0 <= a <= s.len() && trim_start(s) == s.skip(a) && forall|k: int|
                0 <= k < a ==> is_ws(#[trigger] s[k]),
        trim_start(s).len() == 0 || !is_ws(trim_start(s)[0]),
    decreases s.len(),
{
    if s.len() > 0 && is_ws(s[0]) {
        let t = s.drop_first();
        lemma_trim_start_shape(t);
        let a = choose|a: int|
            0 <= a <= t.len() && trim_start(t) == t.skip(a) && forall|k: int|
                0 <= k < a ==> is_ws(#[trigger] t[k]);
        assert(t.skip(a) =~= s.skip(a + 1));
        assert forall|k: int| 0 <= k < a + 1 implies is_ws(#[trigger] s[k]) by {
            if k > 0 {
                assert(s[k] == t[k - 1]);
            }
        }
    } else {
        assert(s.skip(0) =~= s);
    }
}

proof fn lemma_trim_end_shape(s: Seq<char>)
    ensures
        exists|b: int|
            0 <= b <= s.len() && trim_end(s) == s.take(b) && forall|k: int|
                b <= k < s.len() ==> is_ws(#[trigger] s[k]),
        trim_end(s).len() == 0 || !is_ws(trim_end(s).last()),
    decreases s.len(),
{
    if s.len() > 0 && is_ws(s.last()) {
        let t = s.drop_last();
        lemma_trim_end_shape(t);
        let b = choose|b: int|
            0 <= b <= t.len() && trim_end(t) == t.take(b) && forall|k: int|
                b <= k < t.len() ==> is_ws(#[trigger] t[k]);
        assert(t.take(b) =~= s.take(b));
        assert forall|k: int| b <= k < s.len() implies is_ws(#[trigger] s[k]) by {
            if k < s.len() - 1 {
                assert(s[k] == t[k]);
            }
        }
    } else {
        assert(s.take(s.len() as int) =~= s);
    }
}

/// Trimming removes the white space at both ends and nothing else: what is
/// left is a contiguous part of `s`, everything before and after it is
/// white space, and it neither starts nor ends with white space.
pub proof fn law_trim_strips_outer_whitespace(s: Seq<char>)
    ensures
        exists|a: int, b: int|
            0 <= a <= b <= s.len() && trim(s) == s.subrange(a, b) && (forall|k: int|
                0 <= k < a ==> is_ws(#[trigger] s[k])) && (forall|k: int|
                b <= k < s.len() ==> is_ws(#[trigger] s[k])),
        trim(s).len() == 0 || (!is_ws(trim(s)[0]) && !is_ws(trim(s).last())),
{
    lemma_trim_start_shape(s);
    let t = trim_start(s);
    let a = choose|a: int|
        0 <= a <= s.len() && t == s.skip(a) && forall|k: int| 0 <= k < a ==> is_ws(#[trigger] s[k]);
    lemma_trim_end_shape(t);
    let b = choose|b: int|
        0 <= b <= t.len() && trim_end(t) == t.take(b) && forall|k: int|
            b <= k < t.len() ==> is_ws(#[trigger] t[k]);
    assert(trim(s) =~= s.subrange(a, a + b));
    assert forall|k: int| a + b <= k < s.len() implies is_ws(#[trigger] s[k]) by {
        assert(s[k] == t[k - a]);
    }
    if trim(s).len() > 0 {
        assert(trim(s)[0] == t[0]);
    }
}

proof fn lemma_trim_start_skip(s: Seq<char>, i: int)
    requires
        0 <= i <= s.len(),
        forall|j: int| 0 <= j < i ==> is_ws(#[trigger] s[j]),
    ensures
        trim_start(s) == trim_start(s.skip(i)),
    decreases i,
{
    if i > 0 {
        assert(s.drop_first().skip(i - 1) =~= s.skip(i));
        lemma_trim_start_skip(s.drop_first(), i - 1);
    } else {
        assert(s.skip(0) =~= s);
    }
}

proof fn lemma_trim_end_take(s: Seq<char>, i: int)
    requires
        0 <= i <= s.len(),
        forall|j: int| i <= j < s.len() ==> is_ws(#[trigger] s[j]),
    ensures
        trim_end(s) == trim_end(s.take(i)),
    decreases s.len() - i,
{
    if i < s.len() {
        assert(s.drop_last().take(i) =~= s.take(i));
        lemma_trim_end_take(s.drop_last(), i);
    } else {
        assert(s.take(i) =~= s);
    }
}

/// The characters of `v` without leading and trailing white space.
pub fn trim_chars(v: &Vec<char>) -> (r: Vec<char>)
    ensures
        r@ == trim(v@),
{
    let n = v.len();
    let mut a: usize = 0;
    while a < n && is_whitespace(v[a])
        invariant
            a <= n == v@.len(),
            forall|j: int| 0 <= j < a ==> is_ws(#[trigger] v@[j]),
        decreases n - a,
    {
        a = a + 1;
    }
    proof {
        lemma_trim_start_skip(v@, a as int);
    }
    let ghost t = v@.skip(a as int);
    assert(trim_start(t) == t);
    let mut b: usize = n;
    while b > a && is_whitespace(v[b - 1])
        invariant
            a <= b <= n == v@.len(),
            t == v@.skip(a as int),
            forall|j: int| b - a <= j < t.len() ==> is_ws(#[trigger] t[j]),
        decreases b,
    {
        b = b - 1;
    }
    proof {
        lemma_trim_end_take(t, b - a);
        if b > a {
            assert(t.take(b - a).last() == v@[b - 1]);
        } else {
            assert(t.take(0).len() == 0);
        }
    }
    let mut r: Vec<char> = Vec::new();
    for i in a..b
        invariant
            a <= b <= v@.len(),
            r@ == v@.subrange(a as int, i as int),
    {
        r.push(v[i]);
        assert(v@.subrange(a as int, i + 1) == v@.subrange(a as int, i as int).push(v@[i as int]));
    }
    assert(t.take(b - a) =~= v@.subrange(a as int, b as int));
    r
}


/// The number of leading characters of `s` that are not `c`: the index
/// of the first `c`, or the length of `s` when `c` does not occur.
pub open spec fn prefix_without(s: Seq<char>, c: char) -> nat
    decreases s.len(),
{
    if s.len() == 0 || s[0] == c {
        0
    } else {
        1 + prefix_without(s.drop_first(), c)
    }
}

proof fn lemma_prefix_without(s: Seq<char>, c: char, i: int)
    requires
        0 <= i <= s.len(),
        forall|j: int| 0 <= j < i ==> #[trigger] s[j] != c,
        i == s.len() || s[i] == c,
    ensures
        prefix_without(s, c) == i,
    decreases i,
{
    if i > 0 {
        lemma_prefix_without(s.drop_first(), c, i - 1);
    }
}

/// A line without the `\r` of a `\r\n` line ending.
pub open spec fn strip_cr(line: Seq<char>) -> Seq<char> {
    if line.len() > 0 && line.last() == '\r' {
        line.drop_last()
    } else {
        line
    }
}

/// The lines of `s`, as `str::lines` gives them: split after each `\n`,
/// a `\r` before that `\n` removed, and no empty last line after a final
/// line ending.
pub open spec fn lines(s: Seq<char>) -> Seq<Seq<char>>
    decreases s.len(),
{
    if s.len() == 0 {
        seq![]
    } else {
        let i = prefix_without(s, '\n');
        if i >= s.len() {
            seq![s]
        } else {
            seq![strip_cr(s.take(i as int))] + lines(s.skip(i + 1 as int))
        }
    }
}

fn strip_cr_chars(v: Vec<char>) -> (r: Vec<char>)
    ensures
        r@ == strip_cr(v@),
{
    let mut v = v;
    if v.len() > 0 && v[v.len() - 1] == '\r' {
        v.pop();
    }
    v
}

/// The lines of `v`; see [`lines`].
pub fn split_lines(v: &Vec<char>) -> (r: Vec<Vec<char>>)
    ensures
        r@.len() == lines(v@).len(),
        forall|k: int| 0 <= k < r@.len() ==> (#[trigger] r@[k])@ == lines(v@)[k],
{
    let n = v.len();
    let mut out: Vec<Vec<char>> = Vec::new();
    let mut cur: Vec<char> = Vec::new();
    let mut start: usize = 0;
    let mut i: usize = 0;
    assert(v@.skip(0) =~= v@);
    while i < n
        invariant
            n == v@.len(),
            start <= i <= n,
            cur@ == v@.subrange(start as int, i as int),
            forall|j: int| start <= j < i ==> #[trigger] v@[j] != '\n',
            out@.len() + lines(v@.skip(start as int)).len() == lines(v@).len(),
            forall|k: int| 0 <= k < out@.len() ==> (#[trigger] out@[k])@ == lines(v@)[k],
            forall|k: int|
                0 <= k < lines(v@.skip(start as int)).len() ==> lines(v@)[out@.len() + k]
                    == #[trigger] lines(v@.skip(start as int))[k],
        decreases n - i,
    {
        let c = v[i];
        if c == '\n' {
            let ghost rest = v@.skip(start as int);
            proof {
                assert forall|j: int| 0 <= j < i - start implies #[trigger] rest[j] != '\n' by {
                    assert(rest[j] == v@[start + j]);
                }
                lemma_prefix_without(rest, '\n', i - start);
                assert(rest.take(i - start) =~= cur@);
                assert(rest.skip(i - start + 1) =~= v@.skip(i + 1));
                assert(lines(rest) == seq![strip_cr(cur@)] + lines(v@.skip(i + 1)));
            }
            let ghost line_view = strip_cr(cur@);
            let line = strip_cr_chars(cur);
            out.push(line);
            cur = Vec::new();
            i = i + 1;
            start = i;
            proof {
                assert forall|k: int|
                    0 <= k < lines(v@.skip(start as int)).len() implies lines(v@)[out@.len() + k]
                    == #[trigger] lines(v@.skip(start as int))[k] by {
                    assert(lines(rest)[k + 1] == lines(v@.skip(start as int))[k]);
                }
                assert forall|k: int| 0 <= k < out@.len() implies (#[trigger] out@[k])@ == lines(
                    v@,
                )[k] by {
                    if k == out@.len() - 1 {
                        assert(lines(rest)[0] == line_view);
                    }
                }
            }
        } else {
            cur.push(c);
            i = i + 1;
            assert(cur@ == v@.subrange(start as int, i as int));
        }
    }
    if start < n {
        let ghost rest = v@.skip(start as int);
        proof {
            assert forall|j: int| 0 <= j < n - start implies #[trigger] rest[j] != '\n' by {
                assert(rest[j] == v@[start + j]);
            }
            lemma_prefix_without(rest, '\n', n - start);
            assert(rest =~= cur@);
            assert(lines(rest) == seq![rest]);
            assert(lines(v@)[out@.len() + 0int] == lines(rest)[0]);
        }
        let ghost last = cur@;
        out.push(cur);
        assert forall|k: int| 0 <= k < out@.len() implies (#[trigger] out@[k])@ == lines(v@)[k] by {
            if k == out@.len() - 1 {
                assert(out@[k]@ == last);
            }
        }
    } else {
        assert(v@.skip(start as int).len() == 0);
    }
    out
}


/// The number of leading characters of `s` that are not white space.
pub open spec fn token_len(s: Seq<char>) -> nat
    decreases s.len(),
{
    if s.len() == 0 || is_ws(s[0]) {
        0
    } else {
        1 + token_len(s.drop_first())
    }
}

pub proof fn lemma_token_len_bound(s: Seq<char>)
    ensures
        token_len(s) <= s.len(),
    decreases s.len(),
{
    if s.len() > 0 && !is_ws(s[0]) {
        lemma_token_len_bound(s.drop_first());
    }
}

proof fn lemma_token_len(s: Seq<char>, i: int)
    requires
        0 <= i <= s.len(),
        forall|j: int| 0 <= j < i ==> !is_ws(#[trigger] s[j]),
        i == s.len() || is_ws(s[i]),
    ensures
        token_len(s) == i,
    decreases i,
{
    if i > 0 {
        lemma_token_len(s.drop_first(), i - 1);
    }
}

/// The white-space separated words of `s`, as `str::split_whitespace`
/// gives them: maximal runs of characters that are not white space.
pub open spec fn words(s: Seq<char>) -> Seq<Seq<char>>
    decreases s.len(),
{
    if s.len() == 0 {
        seq![]
    } else if is_ws(s[0]) {
        words(s.drop_first())
    } else {
        let k = token_len(s);
        proof {
            lemma_token_len_bound(s);
        }
        seq![s.take(k as int)] + words(s.skip(k as int))
    }
}

/// The words of `v`; see [`words`].
pub fn split_words(v: &Vec<char>) -> (r: Vec<Vec<char>>)
    ensures
        r@.len() == words(v@).len(),
        forall|k: int| 0 <= k < r@.len() ==> (#[trigger] r@[k])@ == words(v@)[k],
{
    let n = v.len();
    let mut out: Vec<Vec<char>> = Vec::new();
    let mut i: usize = 0;
    assert(v@.skip(0) =~= v@);
    while i < n
        invariant
            n == v@.len(),
            i <= n,
            out@.len() + words(v@.skip(i as int)).len() == words(v@).len(),
            forall|k: int| 0 <= k < out@.len() ==> (#[trigger] out@[k])@ == words(v@)[k],
            forall|k: int|
                0 <= k < words(v@.skip(i as int)).len() ==> words(v@)[out@.len() + k]
                    == #[trigger] words(v@.skip(i as int))[k],
        decreases n - i,
    {
        let ghost rest = v@.skip(i as int);
        if is_whitespace(v[i]) {
            assert(rest.drop_first() =~= v@.skip(i + 1));
            i = i + 1;
        } else {
            let mut j: usize = i;
            let mut tok: Vec<char> = Vec::new();
            while j < n && !is_whitespace(v[j])
                invariant
                    n == v@.len(),
                    i <= j <= n,
                    tok@ == v@.subrange(i as int, j as int),
                    forall|m: int| i <= m < j ==> !is_ws(#[trigger] v@[m]),
                decreases n - j,
            {
                tok.push(v[j]);
                j = j + 1;
                assert(tok@ =~= v@.subrange(i as int, j as int));
            }
            proof {
                assert forall|m: int| 0 <= m < j - i implies !is_ws(#[trigger] rest[m]) by {
                    assert(rest[m] == v@[i + m]);
                }
                if j < n {
                    assert(rest[j - i] == v@[j as int]);
                }
                lemma_token_len(rest, j - i);
                assert(rest.take(j - i) =~= tok@);
                assert(rest.skip(j - i) =~= v@.skip(j as int));
                assert(words(rest) == seq![tok@] + words(v@.skip(j as int)));
            }
            let ghost tv = tok@;
            out.push(tok);
            i = j;
            proof {
                assert forall|k: int|
                    0 <= k < words(v@.skip(i as int)).len() implies words(v@)[out@.len() + k]
                    == #[trigger] words(v@.skip(i as int))[k] by {
                    assert(words(rest)[k + 1] == words(v@.skip(i as int))[k]);
                }
                assert forall|k: int| 0 <= k < out@.len() implies (#[trigger] out@[k])@ == words(
                    v@,
                )[k] by {
                    if k == out@.len() - 1 {
                        assert(words(rest)[0] == tv);
                    }
                }
            }
        }
    }
    assert(v@.skip(n as int).len() == 0);
    out
}

/// Whether `c` is an ASCII decimal digit.
pub open spec fn is_digit(c: char) -> bool {
    '0' <= c <= '9'
}

/// The value of a run of decimal digits, most significant first.
pub open spec fn digits_value(d: Seq<char>) -> nat
    decreases d.len(),
{
    if d.len() == 0 {
        0
    } else {
        digits_value(d.drop_last()) * 10 + ((d.last() as u32) - ('0' as u32)) as nat
    }
}

/// The digits that `str::parse` reads for an unsigned integer: `s` without
/// one leading `+`, when something follows it.
pub open spec fn unsigned_digits(s: Seq<char>) -> Seq<char> {
    if s.len() > 1 && s[0] == '+' {
        s.drop_first()
    } else {
        s
    }
}

/// What `str::parse` gives for an unsigned integer type whose largest
/// value is `max`: the value of the digits when there is at least one, all
/// are decimal digits and the value does not exceed `max`; otherwise none.
pub open spec fn parse_unsigned(s: Seq<char>, max: nat) -> Option<nat> {
    let d = unsigned_digits(s);
    if d.len() > 0 && (forall|i: int| 0 <= i < d.len() ==> is_digit(#[trigger] d[i]))
        && digits_value(d) <= max {
        Some(digits_value(d))
    } else {
        None
    }
}

proof fn lemma_digits_value_grows(d: Seq<char>, k: int, m: int)
    requires
        0 <= k <= m <= d.len(),
    ensures
        digits_value(d.take(k)) <= digits_value(d.take(m)),
    decreases m - k,
{
    if k < m {
        lemma_digits_value_grows(d, k, m - 1);
        assert(d.take(m).drop_last() =~= d.take(m - 1));
    }
}

/// Parses `v` as `str::parse` parses an unsigned integer type whose
/// largest value is `max`; see [`parse_unsigned`].
pub fn parse_decimal(v: &Vec<char>, max: u64) -> (r: Option<u64>)
    ensures
        match r {
            Some(x) => parse_unsigned(v@, max as nat) == Some(x as nat),
            None => parse_unsigned(v@, max as nat) is None,
        },
{
    let n = v.len();
    let start: usize = if n > 1 && v[0] == '+' {
        1
    } else {
        0
    };
    let ghost d = unsigned_digits(v@);
    assert(d =~= v@.skip(start as int));
    if start == n {
        return None;
    }
    let mut acc: u64 = 0;
    let mut i: usize = start;
    while i < n
        invariant
            start <= i <= n == v@.len(),
            d == v@.skip(start as int),
            d == unsigned_digits(v@),
            forall|j: int| 0 <= j < i - start ==> is_digit(#[trigger] d[j]),
            acc as nat == digits_value(d.take(i - start)),
            acc <= max,
        decreases n - i,
    {
        let c = v[i];
        if !('0' <= c && c <= '9') {
            assert(!is_digit(d[i - start]));
            return None;
        }
        let dig: u64 = (c as u32 - '0' as u32) as u64;
        let next: u128 = acc as u128 * 10 + dig as u128;
        proof {
            assert(d.take(i - start + 1).drop_last() =~= d.take(i - start));
            assert(d.take(i - start + 1).last() == c);
            assert(next == digits_value(d.take(i - start + 1)));
        }
        if next > max as u128 {
            proof {
                if forall|j: int| 0 <= j < d.len() ==> is_digit(#[trigger] d[j]) {
                    lemma_digits_value_grows(d, i - start + 1, d.len() as int);
                    assert(d.take(d.len() as int) =~= d);
                }
            }
            return None;
        }
        acc = next as u64;
        i = i + 1;
    }
    assert(d.take(n - start) =~= d);
    Some(acc)
}

/// Whether `needle` occurs in `hay` starting at index `i`.
pub open spec fn occurs_at(hay: Seq<char>, needle: Seq<char>, i: int) -> bool {
    0 <= i && i + needle.len() <= hay.len() && hay.subrange(i, i + needle.len()) == needle
}

/// Whether `needle` occurs in `hay`, as `str::contains` decides it (the
/// empty needle occurs everywhere).
pub open spec fn contains_seq(hay: Seq<char>, needle: Seq<char>) -> bool {
    exists|i: int| occurs_at(hay, needle, i)
}

/// Whether `needle` occurs in `hay`; see [`contains_seq`].
pub fn contains_chars(hay: &Vec<char>, needle: &Vec<char>) -> (r: bool)
    ensures
        r == contains_seq(hay@, needle@),
{
    let h = hay.len();
    let m = needle.len();
    if m > h {
        assert forall|i: int| !occurs_at(hay@, needle@, i) by {}
        return false;
    }
    let mut i: usize = 0;
    while i <= h - m
        invariant
            h == hay@.len(),
            m == needle@.len(),
            m <= h,
            i <= h - m + 1,
            forall|k: int| 0 <= k < i ==> !occurs_at(hay@, needle@, k),
        decreases h - m + 1 - i,
    {
        let mut j: usize = 0;
        let mut same = true;
        while j < m
            invariant
                h == hay@.len(),
                m == needle@.len(),
                i + m <= h,
                j <= m,
                same == (forall|t: int| 0 <= t < j ==> hay@[i + t] == needle@[t]),
            decreases m - j,
        {
            if hay[i + j] != needle[j] {
                same = false;
            }
            j = j + 1;
        }
        if same {
            assert(hay@.subrange(i as int, i + m) =~= needle@);
            assert(occurs_at(hay@, needle@, i as int));
            return true;
        }
        proof {
            if occurs_at(hay@, needle@, i as int) {
                assert forall|t: int| 0 <= t < m implies hay@[i + t] == needle@[t] by {
                    assert(hay@.subrange(i as int, i + m)[t] == hay@[i + t]);
                }
            }
        }
        i = i + 1;
    }
    assert forall|k: int| !occurs_at(hay@, needle@, k) by {
        if 0 <= k < i {
        }
    }
    false
}

/// The parts of `s` before and after its first `c`, as `str::split_once`
/// gives them; none when `c` does not occur.
pub open spec fn split_once(s: Seq<char>, c: char) -> Option<(Seq<char>, Seq<char>)> {
    let i = prefix_without(s, c);
    if i < s.len() {
        Some((s.take(i as int), s.skip(i + 1 as int)))
    } else {
        None
    }
}

/// Splits `v` at its first `c`; see [`split_once`].
pub fn split_once_chars(v: &Vec<char>, c: char) -> (r: Option<(Vec<char>, Vec<char>)>)
    ensures
        match r {
            Some((a, b)) => split_once(v@, c) == Some((a@, b@)),
            None => split_once(v@, c) is None,
        },
{
    let n = v.len();
    let mut i: usize = 0;
    let mut before: Vec<char> = Vec::new();
    while i < n && v[i] != c
        invariant
            i <= n == v@.len(),
            before@ == v@.take(i as int),
            forall|j: int| 0 <= j < i ==> #[trigger] v@[j] != c,
        decreases n - i,
    {
        before.push(v[i]);
        i = i + 1;
        assert(before@ =~= v@.take(i as int));
    }
    proof {
        lemma_prefix_without(v@, c, i as int);
    }
    if i == n {
        return None;
    }
    let mut after: Vec<char> = Vec::new();
    let mut j: usize = i + 1;
    while j < n
        invariant
            i < n == v@.len(),
            i + 1 <= j <= n,
            after@ == v@.subrange(i + 1, j as int),
        decreases n - j,
    {
        after.push(v[j]);
        j = j + 1;
        assert(after@ =~= v@.subrange(i + 1, j as int));
    }
    assert(after@ =~= v@.skip(i + 1));
    Some((before, after))
}


/// The upper-case form of `s` as `str::to_uppercase` gives it: each
/// character mapped by the Unicode `Uppercase_Mapping` property, which
/// may turn one character into several.
pub uninterp spec fn uppercase(s: Seq<char>) -> Seq<char>;

/// The lower-case form of `s` as `str::to_lowercase` gives it: each
/// character mapped by the Unicode `Lowercase_Mapping` property (with the
/// final-sigma rule), which may turn one character into several.
pub uninterp spec fn lowercase(s: Seq<char>) -> Seq<char>;

/// `s` in upper case: a call of `str::to_uppercase`, whose result is
/// named [`uppercase`] of `s`.
#[verifier::external_body]
pub(crate) fn to_uppercase(s: &str) -> (r: String)
    ensures
        r@ == uppercase(s@),
{
    s.to_uppercase()
}

/// `s` in lower case: a call of `str::to_lowercase`, whose result is
/// named [`lowercase`] of `s`. As std documents, each character maps to one
/// or more characters, so the result is empty exactly when `s` is.
#[verifier::external_body]
pub(crate) fn to_lowercase(s: &str) -> (r: String)
    ensures
        r@ == lowercase(s@),
        (r@.len() == 0) == (s@.len() == 0),
{
    s.to_lowercase()
}


/// Appends the characters of `s` to `v`.
pub fn extend_chars(v: &mut Vec<char>, s: &str)
    ensures
        final(v)@ == old(v)@ + s@,
{
    let w = chars_of(s);
    let ghost start = v@;
    for i in 0..w.len()
        invariant
            w@ == s@,
            v@ == start + w@.take(i as int),
    {
        v.push(w[i]);
        assert(w@.take(i + 1) == w@.take(i as int).push(w@[i as int]));
    }
    assert(w@.take(w@.len() as int) == w@);
}

/// `b` occurs in `a + b + c`, right after `a`.
pub proof fn lemma_occurs_between(a: Seq<char>, b: Seq<char>, c: Seq<char>)
    ensures
        occurs_at(a + b + c, b, a.len() as int),
        contains_seq(a + b + c, b),
{
    assert((a + b + c).subrange(a.len() as int, a.len() + b.len() as int) =~= b);
}

} // verus!
