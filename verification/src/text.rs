//! Character-level text utilities used by the catalog lookups, spawn-point
//! resolution and the tile-animation syntax.
use vstd::prelude::*;

verus! {

/// `String::push` appends one character.
pub assume_specification[ std::string::String::push ](s: &mut std::string::String, ch: char)
    ensures
        final(s)@ == old(s)@.push(ch),
;

/// The characters of `s`, in order.
pub fn chars_of(s: &str) -> (v: Vec<char>)
    ensures
        v@ == s@,
{
    let mut v: Vec<char> = Vec::new();
    for c in it: s.chars()
        invariant
            it.seq() == s@,
            v@ == it.seq().take(it.index()),
    {
        v.push(c);
    }
    v
}

/// The string made of `v[lo..hi]`.
pub fn string_of_range(v: &Vec<char>, lo: usize, hi: usize) -> (s: String)
    requires
        lo <= hi <= v@.len(),
    ensures
        s@ == v@.subrange(lo as int, hi as int),
{
    let mut s = String::new();
    let mut i = lo;
    while i < hi
        invariant
            lo <= i <= hi <= v@.len(),
            s@ == v@.subrange(lo as int, i as int),
        decreases hi - i,
    {
        s.push(v[i]);
        assert(v@.subrange(lo as int, i + 1) == v@.subrange(lo as int, i as int).push(v@[i as int]));
        i = i + 1;
    }
    s
}

/// The string made of all of `v`.
pub fn string_of_chars(v: &Vec<char>) -> (s: String)
    ensures
        s@ == v@,
{
    let s = string_of_range(v, 0, v.len());
    assert(v@.subrange(0, v@.len() as int) == v@);
    s
}

/// Whether two character sequences are equal.
pub fn chars_eq(a: &Vec<char>, b: &Vec<char>) -> (r: bool)
    ensures
        r == (a@ == b@),
{
    if a.len() != b.len() {
        return false;
    }
    let mut i: usize = 0;
    while i < a.len()
        invariant
            a@.len() == b@.len(),
            i <= a@.len(),
            forall|j: int| 0 <= j < i ==> a@[j] == b@[j],
        decreases a@.len() - i,
    {
        if a[i] != b[i] {
            return false;
        }
        i = i + 1;
    }
    assert(a@ =~= b@);
    true
}

/// Exact string equality, character by character.
pub fn str_eq(a: &str, b: &str) -> (r: bool)
    ensures
        r == (a@ == b@),
{
    let x = chars_of(a);
    let y = chars_of(b);
    chars_eq(&x, &y)
}

/// The ASCII lower-case code of a character: `A`..`Z` map to `a`..`z`, every
/// other character keeps its own code.
pub open spec fn ascii_fold(c: char) -> u32 {
    if 'A' <= c && c <= 'Z' {
        (c as u32 + 32) as u32
    } else {
        c as u32
    }
}

/// `a` and `b` are equal once ASCII letters are folded to lower case; this is
/// what `str::eq_ignore_ascii_case` decides.
pub open spec fn eq_ignore_ascii_case_spec(a: Seq<char>, b: Seq<char>) -> bool {
    &&& a.len() == b.len()
    &&& forall|i: int| 0 <= i < a.len() ==> #[trigger] ascii_fold(a[i]) == ascii_fold(b[i])
}

/// Comparing with `a` or with `b` ignoring ASCII case gives the same answer
/// when `a` and `b` are equal ignoring ASCII case.
pub proof fn lemma_eq_ignore_ascii_case_swap(x: Seq<char>, a: Seq<char>, b: Seq<char>)
    requires
        eq_ignore_ascii_case_spec(a, b),
    ensures
        eq_ignore_ascii_case_spec(x, a) == eq_ignore_ascii_case_spec(x, b),
{
    if eq_ignore_ascii_case_spec(x, a) {
        assert forall|i: int| 0 <= i < x.len() implies #[trigger] ascii_fold(x[i]) == ascii_fold(b[i]) by {
            assert(ascii_fold(x[i]) == ascii_fold(a[i]));
            assert(ascii_fold(a[i]) == ascii_fold(b[i]));
        }
    }
    if eq_ignore_ascii_case_spec(x, b) {
        assert forall|i: int| 0 <= i < x.len() implies #[trigger] ascii_fold(x[i]) == ascii_fold(a[i]) by {
            assert(ascii_fold(x[i]) == ascii_fold(b[i]));
            assert(ascii_fold(a[i]) == ascii_fold(b[i]));
        }
    }
}

fn fold_char(c: char) -> (r: u32)
    ensures
        r == ascii_fold(c),
{
    let x = c as u32;
    if 'A' <= c && c <= 'Z' {
        x + 32
    } else {
        x
    }
}

/// Compares two character sequences, ignoring the case of ASCII letters.
pub fn chars_eq_ignore_ascii_case(a: &Vec<char>, b: &Vec<char>) -> (r: bool)
    ensures
        r == eq_ignore_ascii_case_spec(a@, b@),
{
    if a.len() != b.len() {
        return false;
    }
    let mut i: usize = 0;
    while i < a.len()
        invariant
            a@.len() == b@.len(),
            i <= a@.len(),
            forall|j: int| 0 <= j < i ==> #[trigger] ascii_fold(a@[j]) == ascii_fold(b@[j]),
        decreases a@.len() - i,
    {
        if fold_char(a[i]) != fold_char(b[i]) {
            return false;
        }
        i = i + 1;
    }
    true
}

/// Compares two strings, ignoring the case of ASCII letters.
pub fn eq_ignore_ascii_case(a: &str, b: &str) -> (r: bool)
    ensures
        r == eq_ignore_ascii_case_spec(a@, b@),
{
    let va = chars_of(a);
    let vb = chars_of(b);
    chars_eq_ignore_ascii_case(&va, &vb)
}

/// Unicode `White_Space`: the characters `char::is_whitespace` accepts.
pub open spec fn is_whitespace(c: char) -> bool {
    ||| ('\u{9}' <= c && c <= '\u{d}')
    ||| c == ' '
    ||| c == '\u{85}'
    ||| c == '\u{a0}'
    ||| c == '\u{1680}'
    ||| ('\u{2000}' <= c && c <= '\u{200a}')
    ||| c == '\u{2028}'
    ||| c == '\u{2029}'
    ||| c == '\u{202f}'
    ||| c == '\u{205f}'
    ||| c == '\u{3000}'
}

fn is_whitespace_exec(c: char) -> (r: bool)
    ensures
        r == is_whitespace(c),
{
    ('\u{9}' <= c && c <= '\u{d}') || c == ' ' || c == '\u{85}' || c == '\u{a0}' || c == '\u{1680}'
        || ('\u{2000}' <= c && c <= '\u{200a}') || c == '\u{2028}' || c == '\u{2029}' || c == '\u{202f}'
        || c == '\u{205f}' || c == '\u{3000}'
}

/// `s` without its leading whitespace.
pub open spec fn trim_start(s: Seq<char>) -> Seq<char>
    decreases s.len(),
{
    if s.len() > 0 && is_whitespace(s[0]) {
        trim_start(s.drop_first())
    } else {
        s
    }
}

/// `s` without its trailing whitespace.
pub open spec fn trim_end(s: Seq<char>) -> Seq<char>
    decreases s.len(),
{
    if s.len() > 0 && is_whitespace(s.last()) {
        trim_end(s.drop_last())
    } else {
        s
    }
}

/// `s` without its leading and trailing whitespace, as `str::trim` gives it.
pub open spec fn trim(s: Seq<char>) -> Seq<char> {
    trim_end(trim_start(s))
}

/// The characters `v[lo..hi]`.
pub fn sub_chars(v: &Vec<char>, lo: usize, hi: usize) -> (r: Vec<char>)
    requires
        lo <= hi <= v@.len(),
    ensures
        r@ == v@.subrange(lo as int, hi as int),
{
    let mut r: Vec<char> = Vec::new();
    let mut i = lo;
    while i < hi
        invariant
            lo <= i <= hi <= v@.len(),
            r@ == v@.subrange(lo as int, i as int),
        decreases hi - i,
    {
        r.push(v[i]);
        assert(v@.subrange(lo as int, i + 1) == v@.subrange(lo as int, i as int).push(v@[i as int]));
        i = i + 1;
    }
    r
}

/// `v` without its leading and trailing whitespace.
pub fn trim_chars(v: &Vec<char>) -> (r: Vec<char>)
    ensures
        r@ == trim(v@),
{
    let n = v.len();
    let mut lo: usize = 0;
    assert(v@.subrange(0, n as int) == v@);
    while lo < n && is_whitespace_exec(v[lo])
        invariant
            lo <= n == v@.len(),
            trim_start(v@) == trim_start(v@.subrange(lo as int, n as int)),
        decreases n - lo,
    {
        assert(v@.subrange(lo as int, n as int).drop_first() == v@.subrange(lo + 1, n as int));
        lo = lo + 1;
    }
    assert(trim_start(v@) == v@.subrange(lo as int, n as int));
    let mut hi: usize = n;
    while hi > lo && is_whitespace_exec(v[hi - 1])
        invariant
            lo <= hi <= n == v@.len(),
            trim_end(v@.subrange(lo as int, n as int)) == trim_end(v@.subrange(lo as int, hi as int)),
        decreases hi,
    {
        assert(v@.subrange(lo as int, hi as int).drop_last() == v@.subrange(lo as int, hi - 1));
        hi = hi - 1;
    }
    sub_chars(v, lo, hi)
}

/// `pattern` occurs in `s` at position `i`.
pub open spec fn occurs_at(s: Seq<char>, pattern: Seq<char>, i: int) -> bool {
    0 <= i && i + pattern.len() <= s.len() && s.subrange(i, i + pattern.len()) == pattern
}

/// `pattern` occurs somewhere in `s`, as `str::contains` decides.
pub open spec fn contains_text(s: Seq<char>, pattern: Seq<char>) -> bool {
    exists|i: int| occurs_at(s, pattern, i)
}

/// Whether `pattern` occurs in `s`.
pub fn contains_chars(s: &Vec<char>, pattern: &Vec<char>) -> (r: bool)
    ensures
        r == contains_text(s@, pattern@),
{
    let n = s.len();
    let m = pattern.len();
    if m > n {
        return false;
    }
    let mut i: usize = 0;
    while i <= n - m
        invariant
            m <= n,
            n == s@.len(),
            m == pattern@.len(),
            i <= n - m + 1,
            forall|k: int| 0 <= k < i ==> !occurs_at(s@, pattern@, k),
        decreases n - m + 1 - i,
    {
        let mut j: usize = 0;
        let mut all = true;
        while j < m
            invariant
                m <= n,
                n == s@.len(),
                m == pattern@.len(),
                i + m <= n,
                j <= m,
                all == (forall|k: int| 0 <= k < j ==> s@[i + k] == pattern@[k]),
            decreases m - j,
        {
            if s[i + j] != pattern[j] {
                all = false;
            }
            j = j + 1;
        }
        if all {
            assert(s@.subrange(i as int, i + m) =~= pattern@);
            assert(occurs_at(s@, pattern@, i as int));
            return true;
        }
        assert(!occurs_at(s@, pattern@, i as int)) by {
            if occurs_at(s@, pattern@, i as int) {
                let k = choose|k: int| 0 <= k < m && s@[i + k] != pattern@[k];
                assert(s@.subrange(i as int, i + m)[k] == pattern@[k]);
            }
        }
        i = i + 1;
    }
    assert forall|k: int| !occurs_at(s@, pattern@, k) by {
        if 0 <= k && k + m <= n {
            assert(k < i);
        }
    }
    false
}

/// `s` after `prefix`, when it starts with it, as `str::strip_prefix` gives it.
pub open spec fn strip_prefix(s: Seq<char>, prefix: Seq<char>) -> Option<Seq<char>> {
    if prefix.len() <= s.len() && s.take(prefix.len() as int) == prefix {
        Some(s.skip(prefix.len() as int))
    } else {
        None
    }
}

/// `s` after `prefix`, when it starts with it.
pub fn strip_prefix_chars(s: &Vec<char>, prefix: &Vec<char>) -> (r: Option<Vec<char>>)
    ensures
        match strip_prefix(s@, prefix@) {
            Some(rest) => r is Some && r->0@ == rest,
            None => r is None,
        },
{
    let n = s.len();
    let m = prefix.len();
    if m > n {
        return None;
    }
    let mut j: usize = 0;
    while j < m
        invariant
            m <= n,
            n == s@.len(),
            m == prefix@.len(),
            j <= m,
            forall|k: int| 0 <= k < j ==> s@[k] == prefix@[k],
        decreases m - j,
    {
        if s[j] != prefix[j] {
            assert(s@.take(m as int)[j as int] != prefix@[j as int]);
            return None;
        }
        j = j + 1;
    }
    assert(s@.take(m as int) =~= prefix@);
    let rest = sub_chars(s, m, n);
    assert(rest@ =~= s@.skip(m as int));
    Some(rest)
}

/// The first position of `c` in `s`, if any.
pub open spec fn index_of(s: Seq<char>, c: char) -> Option<int> {
    if exists|i: int| 0 <= i < s.len() && s[i] == c {
        Some(choose|i: int| 0 <= i < s.len() && s[i] == c && forall|j: int| 0 <= j < i ==> s[j] != c)
    } else {
        None
    }
}

proof fn lemma_index_of(s: Seq<char>, c: char, i: int)
    requires
        0 <= i < s.len(),
        s[i] == c,
        forall|j: int| 0 <= j < i ==> s[j] != c,
    ensures
        index_of(s, c) == Some(i),
{
    let k = choose|k: int| 0 <= k < s.len() && s[k] == c && forall|j: int| 0 <= j < k ==> s[j] != c;
    if k < i {
        assert(s[k] != c);
    } else if i < k {
        assert(s[i] != c);
    }
}

/// `s` cut at the first `c`, as `str::split_once` gives it.
pub open spec fn split_once(s: Seq<char>, c: char) -> Option<(Seq<char>, Seq<char>)> {
    match index_of(s, c) {
        Some(i) => Some((s.take(i), s.skip(i + 1))),
        None => None,
    }
}

/// `s` cut at the first `c`.
pub fn split_once_chars(s: &Vec<char>, c: char) -> (r: Option<(Vec<char>, Vec<char>)>)
    ensures
        match split_once(s@, c) {
            Some((before, after)) => r matches Some((b, a)) && b@ == before && a@ == after,
            None => r is None,
        },
{
    let n = s.len();
    let mut i: usize = 0;
    while i < n
        invariant
            i <= n == s@.len(),
            forall|j: int| 0 <= j < i ==> s@[j] != c,
        decreases n - i,
    {
        if s[i] == c {
            proof {
                lemma_index_of(s@, c, i as int);
            }
            let before = sub_chars(s, 0, i);
            let after = sub_chars(s, i + 1, n);
            assert(before@ =~= s@.take(i as int));
            assert(after@ =~= s@.skip(i + 1));
            return Some((before, after));
        }
        i = i + 1;
    }
    None
}

/// The pieces of `s` between occurrences of `c`, as `str::split` gives them:
/// one more piece than there are separators.
pub open spec fn split(s: Seq<char>, c: char) -> Seq<Seq<char>>
    decreases s.len(),
{
    if s.len() == 0 {
        seq![Seq::<char>::empty()]
    } else {
        let pieces = split(s.drop_last(), c);
        if s.last() == c {
            pieces.push(Seq::<char>::empty())
        } else {
            pieces.update(pieces.len() - 1, pieces.last().push(s.last()))
        }
    }
}

proof fn lemma_split_nonempty(s: Seq<char>, c: char)
    ensures
        split(s, c).len() >= 1,
    decreases s.len(),
{
    if s.len() > 0 {
        lemma_split_nonempty(s.drop_last(), c);
    }
}

/// The pieces of `s` between occurrences of `c`.
pub fn split_chars(s: &Vec<char>, c: char) -> (r: Vec<Vec<char>>)
    ensures
        r@.len() == split(s@, c).len(),
        forall|k: int| 0 <= k < r@.len() ==> #[trigger] r@[k]@ == split(s@, c)[k],
{
    let n = s.len();
    let mut pieces: Vec<Vec<char>> = Vec::new();
    let mut current: Vec<char> = Vec::new();
    let mut i: usize = 0;
    while i < n
        invariant
            i <= n == s@.len(),
            pieces@.len() + 1 == split(s@.take(i as int), c).len(),
            forall|k: int| 0 <= k < pieces@.len() ==> #[trigger] pieces@[k]@ == split(s@.take(i as int), c)[k],
            current@ == split(s@.take(i as int), c).last(),
        decreases n - i,
    {
        proof {
            assert(s@.take(i + 1).drop_last() == s@.take(i as int));
            lemma_split_nonempty(s@.take(i as int), c);
        }
        if s[i] == c {
            let mut fresh: Vec<char> = Vec::new();
            std::mem::swap(&mut fresh, &mut current);
            pieces.push(fresh);
        } else {
            current.push(s[i]);
        }
        i = i + 1;
    }
    assert(s@.take(n as int) == s@);
    pieces.push(current);
    pieces
}

/// The value of a sequence of decimal digits.
pub open spec fn digits_value(d: Seq<char>) -> int
    decreases d.len(),
{
    if d.len() == 0 {
        0
    } else {
        10 * digits_value(d.drop_last()) + (d.last() as int - '0' as int)
    }
}

/// Every character of `d` is an ASCII decimal digit.
pub open spec fn all_digits(d: Seq<char>) -> bool {
    forall|i: int| 0 <= i < d.len() ==> '0' <= #[trigger] d[i] && d[i] <= '9'
}

/// The `i32` that `s` spells, as `str::parse::<i32>` reads it: an optional
/// `+` or `-`, then at least one decimal digit and nothing else, with the
/// value in range.
pub open spec fn parse_i32(s: Seq<char>) -> Option<i32> {
    let negative = s.len() > 0 && s[0] == '-';
    let digits = if s.len() > 0 && (s[0] == '-' || s[0] == '+') {
        s.drop_first()
    } else {
        s
    };
    let value = if negative {
        -digits_value(digits)
    } else {
        digits_value(digits)
    };
    if digits.len() > 0 && all_digits(digits) && i32::MIN <= value <= i32::MAX {
        Some(value as i32)
    } else {
        None
    }
}

proof fn lemma_digits_value_grows(d: Seq<char>, k: int)
    requires
        0 <= k <= d.len(),
        all_digits(d),
    ensures
        digits_value(d.take(k)) <= digits_value(d),
        0 <= digits_value(d.take(k)),
    decreases d.len() - k,
{
    if k < d.len() {
        lemma_digits_value_grows(d, k + 1);
        assert(d.take(k + 1).drop_last() == d.take(k));
        assert('0' <= d[k] && d[k] <= '9');
    } else {
        assert(d.take(k) == d);
        lemma_digits_nonneg(d);
    }
}

proof fn lemma_digits_nonneg(d: Seq<char>)
    requires
        all_digits(d),
    ensures
        0 <= digits_value(d),
    decreases d.len(),
{
    if d.len() > 0 {
        assert(all_digits(d.drop_last()));
        assert('0' <= d[d.len() - 1]);
        lemma_digits_nonneg(d.drop_last());
    }
}

/// Reads an `i32` the way `str::parse::<i32>` does.
pub fn parse_i32_chars(s: &Vec<char>) -> (r: Option<i32>)
    ensures
        r == parse_i32(s@),
{
    let n = s.len();
    let negative = n > 0 && s[0] == '-';
    let start: usize = if n > 0 && (s[0] == '-' || s[0] == '+') {
        1
    } else {
        0
    };
    let ghost digits = if s@.len() > 0 && (s@[0] == '-' || s@[0] == '+') {
        s@.drop_first()
    } else {
        s@
    };
    assert(digits == s@.skip(start as int));
    if start >= n {
        return None;
    }
    let limit: i64 = 2147483648;
    let mut value: i64 = 0;
    let mut i = start;
    while i < n
        invariant
            start <= i <= n == s@.len(),
            digits == s@.skip(start as int),
            all_digits(digits.take(i - start)),
            value == digits_value(digits.take(i - start)),
            0 <= value <= limit,
            limit == 2147483648,
            negative == (s@.len() > 0 && s@[0] == '-'),
            digits == (if s@.len() > 0 && (s@[0] == '-' || s@[0] == '+') {
                s@.drop_first()
            } else {
                s@
            }),
        decreases n - i,
    {
        let c = s[i];
        if c < '0' || c > '9' {
            assert(digits[i - start] == c);
            assert(!all_digits(digits));
            assert(parse_i32(s@) is None);
            return None;
        }
        let code = c as u32;
        assert('0' as u32 <= code && code <= '9' as u32);
        let d = (code - 48) as i64;
        assert(0 <= d <= 9);
        proof {
            assert(digits.take(i - start + 1).drop_last() == digits.take(i - start));
            assert(digits.take(i - start + 1).last() == c);
        }
        assert(10 * value <= 10 * limit) by (nonlinear_arith)
            requires
                0 <= value <= limit,
        ;
        let next = 10 * value + d;
        if next > limit {
            proof {
                assert(all_digits(digits.take(i - start + 1)));
                assert(digits_value(digits.take(i - start + 1)) == next);
                if all_digits(digits) {
                    lemma_digits_value_grows(digits, i - start + 1);
                    assert(digits_value(digits) > limit);
                }
            }
            return None;
        }
        value = next;
        i = i + 1;
    }
    assert(digits.take(n - start) == digits);
    if negative {
        Some((-value) as i32)
    } else if value > 2147483647 {
        None
    } else {
        Some(value as i32)
    }
}

} // verus!
