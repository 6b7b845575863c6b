//! Character-level helpers for the level-scene naming and tag grammars:
//! reading a string's characters, ASCII digits, Unicode whitespace trimming,
//! prefixes and splitting on a separator.

use vstd::prelude::*;

verus! {

broadcast use vstd::string::group_string_axioms;

/// The characters of `s`, in order.
pub fn chars_of(s: &str) -> (r: Vec<char>)
    ensures
        r@ == s@,
{
    let mut out: Vec<char> = Vec::new();
    for c in iter: s.chars()
        invariant
            out@ == iter.seq().take(iter.index() as int),
    {
        out.push(c);
    }
    out
}

} // verus!

verus! {

/// An ASCII decimal digit.
pub open spec fn is_digit(c: char) -> bool {
    '0' <= c && c <= '9'
}

/// The numeric value of an ASCII digit.
pub open spec fn digit_value(c: char) -> int {
    c as int - '0' as int
}

/// Every character of `s` is an ASCII digit.
pub open spec fn all_digits(s: Seq<char>) -> bool {
    forall|i: int| 0 <= i < s.len() ==> #[trigger] is_digit(s[i])
}

/// The decimal number that a string of digits spells (unbounded; leading
/// zeros allowed; the empty string spells 0).
pub open spec fn digits_value(s: Seq<char>) -> int
    decreases s.len(),
{
    if s.len() == 0 {
        0
    } else {
        digits_value(s.drop_last()) * 10 + digit_value(s.last())
    }
}

/// Number of ASCII digits at the front of `s`.
pub open spec fn leading_digit_count(s: Seq<char>) -> nat
    decreases s.len(),
{
    if s.len() > 0 && is_digit(s[0]) {
        1 + leading_digit_count(s.subrange(1, s.len() as int))
    } else {
        0
    }
}

/// `p` is a prefix of `s`.
pub open spec fn has_prefix(s: Seq<char>, p: Seq<char>) -> bool {
    p.len() <= s.len() && s.subrange(0, p.len() as int) == p
}

/// Unicode `White_Space` characters, the set that `char::is_whitespace`
/// and `str::trim` use.
pub open spec fn is_ws(c: char) -> bool {
    ||| ('\u{9}' <= c && c <= '\u{d}')
    ||| c == ' '
    ||| c == '\u{85}'
    ||| c == '\u{a0}'
    ||| c == '\u{1680}'
    ||| ('\u{2000}' <= c && c <= '\u{200a}')
    ||| c == '\u{2028}'
    ||| c == '\u{2029}'
    ||| c == '\u{202f}'
    ||| c == '\u{205f}'
    ||| c == '\u{3000}'
}

/// `s` without its leading whitespace.
pub open spec fn trim_start(s: Seq<char>) -> Seq<char>
    decreases s.len(),
{
    if s.len() > 0 && is_ws(s[0]) {
        trim_start(s.subrange(1, s.len() as int))
    } else {
        s
    }
}

/// `s` without its trailing whitespace.
pub open spec fn trim_end(s: Seq<char>) -> Seq<char>
    decreases s.len(),
{
    if s.len() > 0 && is_ws(s.last()) {
        trim_end(s.drop_last())
    } else {
        s
    }
}

/// `s` without leading and trailing whitespace (as `str::trim`).
pub open spec fn trim(s: Seq<char>) -> Seq<char> {
    trim_end(trim_start(s))
}

/// The pieces of `s` between occurrences of `sep` (as `str::split` with a
/// single-character pattern): always at least one piece, empty pieces kept.
pub open spec fn split_on(s: Seq<char>, sep: char) -> Seq<Seq<char>>
    decreases s.len(),
{
    if s.len() == 0 {
        seq![Seq::<char>::empty()]
    } else {
        let t = split_on(s.drop_last(), sep);
        if s.last() == sep {
            t.push(Seq::<char>::empty())
        } else {
            t.update(t.len() - 1, t.last().push(s.last()))
        }
    }
}

pub proof fn lemma_split_on_nonempty(s: Seq<char>, sep: char)
    ensures
        split_on(s, sep).len() >= 1,
    decreases s.len(),
{
    if s.len() > 0 {
        lemma_split_on_nonempty(s.drop_last(), sep);
    }
}

/// A digit run followed by more characters never spells less than the run
/// alone.
pub proof fn lemma_digits_value_monotone(s: Seq<char>, i: int, j: int)
    requires
        0 <= i <= j <= s.len(),
        all_digits(s.subrange(0, j)),
    ensures
        digits_value(s.subrange(0, i)) <= digits_value(s.subrange(0, j)),
        digits_value(s.subrange(0, j)) >= 0,
    decreases j,
{
    if j > 0 {
        assert(s.subrange(0, j).drop_last() =~= s.subrange(0, j - 1));
        assert(is_digit(s.subrange(0, j)[j - 1]));
        if i < j {
            lemma_digits_value_monotone(s, i, j - 1);
        } else {
            lemma_digits_value_monotone(s, j - 1, j - 1);
        }
    }
}

/// Whether `c` is a `White_Space` character.
pub fn is_whitespace(c: char) -> (r: bool)
    ensures
        r == is_ws(c),
{
    ('\u{9}' <= c && c <= '\u{d}') || c == ' ' || c == '\u{85}' || c == '\u{a0}' || c
        == '\u{1680}' || ('\u{2000}' <= c && c <= '\u{200a}') || c == '\u{2028}' || c
        == '\u{2029}' || c == '\u{202f}' || c == '\u{205f}' || c == '\u{3000}'
}

/// Bounds of `trim(chars[lo..hi])` inside `chars`.
pub fn trim_bounds(chars: &Vec<char>, lo: usize, hi: usize) -> (r: (usize, usize))
    requires
        lo <= hi <= chars@.len(),
    ensures
        lo <= r.0 <= r.1 <= hi,
        chars@.subrange(r.0 as int, r.1 as int) == trim(chars@.subrange(lo as int, hi as int)),
{
    let mut a = lo;
    while a < hi && is_whitespace(chars[a])
        invariant
            lo <= a <= hi <= chars@.len(),
            trim_start(chars@.subrange(lo as int, hi as int)) == trim_start(
                chars@.subrange(a as int, hi as int),
            ),
        decreases hi - a,
    {
        assert(chars@.subrange(a as int, hi as int).subrange(1, (hi - a) as int) =~= chars@.subrange(
            a + 1,
            hi as int,
        ));
        a = a + 1;
    }
    assert(trim_start(chars@.subrange(a as int, hi as int)) == chars@.subrange(a as int, hi as int));
    let mut b = hi;
    while b > a && is_whitespace(chars[b - 1])
        invariant
            lo <= a <= b <= hi <= chars@.len(),
            trim_end(chars@.subrange(a as int, hi as int)) == trim_end(
                chars@.subrange(a as int, b as int),
            ),
        decreases b - a,
    {
        assert(chars@.subrange(a as int, b as int).drop_last() =~= chars@.subrange(
            a as int,
            b - 1,
        ));
        b = b - 1;
    }
    (a, b)
}

/// Whether `chars[lo..hi]` equals `lit`.
pub fn range_equals(chars: &Vec<char>, lo: usize, hi: usize, lit: &Vec<char>) -> (r: bool)
    requires
        lo <= hi <= chars@.len(),
    ensures
        r == (chars@.subrange(lo as int, hi as int) == lit@),
{
    if hi - lo != lit.len() {
        return false;
    }
    let mut i: usize = 0;
    while i < lit.len()
        invariant
            lo <= hi <= chars@.len(),
            hi - lo == lit@.len(),
            0 <= i <= lit@.len(),
            forall|k: int| 0 <= k < i ==> chars@[lo + k] == lit@[k],
        decreases lit@.len() - i,
    {
        if chars[lo + i] != lit[i] {
            assert(chars@.subrange(lo as int, hi as int)[i as int] != lit@[i as int]);
            return false;
        }
        i = i + 1;
    }
    assert(chars@.subrange(lo as int, hi as int) =~= lit@);
    true
}

/// Whether `chars[lo..hi]` starts with `lit`.
pub fn range_has_prefix(chars: &Vec<char>, lo: usize, hi: usize, lit: &Vec<char>) -> (r: bool)
    requires
        lo <= hi <= chars@.len(),
    ensures
        r == has_prefix(chars@.subrange(lo as int, hi as int), lit@),
{
    if hi - lo < lit.len() {
        return false;
    }
    let r = range_equals(chars, lo, lo + lit.len(), lit);
    assert(chars@.subrange(lo as int, hi as int).subrange(0, lit@.len() as int) =~= chars@.subrange(
        lo as int,
        lo + lit@.len(),
    ));
    r
}

} // verus!

verus! {

/// End of the run of ASCII digits that starts `chars[lo..hi]`.
pub fn digit_run_end(chars: &Vec<char>, lo: usize, hi: usize) -> (r: usize)
    requires
        lo <= hi <= chars@.len(),
    ensures
        lo <= r <= hi,
        r - lo == leading_digit_count(chars@.subrange(lo as int, hi as int)),
        all_digits(chars@.subrange(lo as int, r as int)),
{
    let mut i = lo;
    while i < hi && '0' <= chars[i] && chars[i] <= '9'
        invariant
            lo <= i <= hi <= chars@.len(),
            leading_digit_count(chars@.subrange(lo as int, hi as int)) == (i - lo)
                + leading_digit_count(chars@.subrange(i as int, hi as int)),
            all_digits(chars@.subrange(lo as int, i as int)),
        decreases hi - i,
    {
        assert(chars@.subrange(i as int, hi as int).subrange(1, (hi - i) as int) =~= chars@.subrange(
            i + 1,
            hi as int,
        ));
        assert forall|k: int| 0 <= k < i + 1 - lo implies #[trigger] is_digit(
            chars@.subrange(lo as int, i + 1)[k],
        ) by {
            if k < i - lo {
                assert(chars@.subrange(lo as int, i + 1)[k] == chars@.subrange(lo as int, i as int)[k]);
            }
        }
        i = i + 1;
    }
    i
}

/// The value of the digit string `chars[lo..hi]`, or `None` when it does
/// not fit in a `usize`.
pub fn digits_to_usize(chars: &Vec<char>, lo: usize, hi: usize) -> (r: Option<usize>)
    requires
        lo <= hi <= chars@.len(),
        all_digits(chars@.subrange(lo as int, hi as int)),
    ensures
        match r {
            Some(v) => v == digits_value(chars@.subrange(lo as int, hi as int)),
            None => digits_value(chars@.subrange(lo as int, hi as int)) > usize::MAX,
        },
{
    let ghost s = chars@.subrange(lo as int, hi as int);
    let mut v: usize = 0;
    let mut i = lo;
    assert(s.subrange(0, 0) =~= Seq::<char>::empty());
    while i < hi
        invariant
            lo <= i <= hi <= chars@.len(),
            s == chars@.subrange(lo as int, hi as int),
            all_digits(s),
            v == digits_value(s.subrange(0, i - lo)),
        decreases hi - i,
    {
        let c = chars[i];
        assert(s[i - lo] == c);
        assert(is_digit(s[i - lo]));
        assert(s.subrange(0, i + 1 - lo).drop_last() =~= s.subrange(0, i - lo));
        let d = (c as u32 - '0' as u32) as usize;
        assert(d == digit_value(c));
        match v.checked_mul(10) {
            Some(t) => match t.checked_add(d) {
                Some(n) => {
                    v = n;
                },
                None => {
                    proof {
                        lemma_digits_value_monotone(s, i + 1 - lo, s.len() as int);
                        assert(s.subrange(0, s.len() as int) =~= s);
                    }
                    return None;
                },
            },
            None => {
                proof {
                    lemma_digits_value_monotone(s, i + 1 - lo, s.len() as int);
                    assert(s.subrange(0, s.len() as int) =~= s);
                }
                return None;
            },
        }
        i = i + 1;
    }
    assert(s.subrange(0, hi - lo) =~= s);
    Some(v)
}

/// The value of `chars[lo..hi]` if it is a non-empty digit string spelling
/// at most `cap`; `None` otherwise.
pub fn bounded_number(chars: &Vec<char>, lo: usize, hi: usize, cap: u32) -> (r: Option<u32>)
    requires
        lo <= hi <= chars@.len(),
    ensures
        ({
            let s = chars@.subrange(lo as int, hi as int);
            match r {
                Some(v) => s.len() > 0 && all_digits(s) && v == digits_value(s) && v <= cap,
                None => !(s.len() > 0 && all_digits(s) && digits_value(s) <= cap),
            }
        }),
{
    let ghost s = chars@.subrange(lo as int, hi as int);
    if lo == hi {
        return None;
    }
    let end = digit_run_end(chars, lo, hi);
    if end != hi {
        assert(!is_digit(s[end - lo])) by {
            let t = chars@.subrange(end as int, hi as int);
            assert(t[0] == s[end - lo]);
            if is_digit(t[0]) {
                assert(leading_digit_count(t) > 0);
            }
            assert(leading_digit_count(chars@.subrange(lo as int, hi as int)) == end - lo);
            lemma_leading_count_split(s, (end - lo) as int);
        }
        return None;
    }
    match digits_to_usize(chars, lo, hi) {
        Some(v) => {
            if v <= cap as usize {
                Some(v as u32)
            } else {
                None
            }
        },
        None => None,
    }
}

/// Counting digits of `s` after `k` leading digits.
pub proof fn lemma_leading_count_split(s: Seq<char>, k: int)
    requires
        0 <= k <= s.len(),
        all_digits(s.subrange(0, k)),
    ensures
        leading_digit_count(s) == k + leading_digit_count(s.subrange(k, s.len() as int)),
    decreases k,
{
    if k > 0 {
        assert(is_digit(s.subrange(0, k)[0]));
        let t = s.subrange(1, s.len() as int);
        assert forall|i: int| 0 <= i < k - 1 implies #[trigger] is_digit(t.subrange(0, k - 1)[i]) by {
            assert(t.subrange(0, k - 1)[i] == s.subrange(0, k)[i + 1]);
        }
        lemma_leading_count_split(t, k - 1);
        assert(t.subrange(k - 1, t.len() as int) =~= s.subrange(k, s.len() as int));
        assert(s[0] == s.subrange(0, k)[0]);
    } else {
        assert(s.subrange(0, s.len() as int) =~= s);
    }
}

/// The leading digit run of `s` is made of digits, and spells a
/// non-negative number.
pub proof fn lemma_leading_digits_are_digits(s: Seq<char>)
    ensures
        leading_digit_count(s) <= s.len(),
        all_digits(s.subrange(0, leading_digit_count(s) as int)),
        digits_value(s.subrange(0, leading_digit_count(s) as int)) >= 0,
    decreases s.len(),
{
    let k = leading_digit_count(s) as int;
    if s.len() > 0 && is_digit(s[0]) {
        let t = s.subrange(1, s.len() as int);
        lemma_leading_digits_are_digits(t);
        assert forall|i: int| 0 <= i < k implies #[trigger] is_digit(s.subrange(0, k)[i]) by {
            if i > 0 {
                assert(s.subrange(0, k)[i] == t.subrange(0, k - 1)[i - 1]);
            }
        }
    }
    lemma_digits_value_monotone(s.subrange(0, k), k, k);
    assert(s.subrange(0, k).subrange(0, k) =~= s.subrange(0, k));
}

} // verus!
