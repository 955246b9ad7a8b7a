//! Verified text primitives used at the event boundary: string equality,
//! blank detection, whitespace tokenization, prefix tests and decimal
//! parsing for the callback-token grammar.

use vstd::prelude::*;
use vstd::string::StrSliceExecFns;

verus! {

/// Characters treated as whitespace when free-text replies are trimmed
/// and split into tokens.
pub open spec fn is_space(c: char) -> bool {
    c == ' ' || c == '\t' || c == '\r' || c == '\n'
}

/// A string is blank when every character is whitespace (so it trims to "").
pub open spec fn blank(s: Seq<char>) -> bool {
    forall|i: int| 0 <= i < s.len() ==> is_space(#[trigger] s[i])
}

/// Tokens of `s` from position `i` onward, with `cur` the partial token read
/// so far; a maximal non-space run forms one token.
pub open spec fn tokens_from(s: Seq<char>, i: int, cur: Seq<char>) -> Seq<Seq<char>>
    decreases s.len() - i,
{
    if i < 0 || i >= s.len() {
        if cur.len() > 0 {
            seq![cur]
        } else {
            Seq::empty()
        }
    } else if is_space(s[i]) {
        if cur.len() > 0 {
            seq![cur] + tokens_from(s, i + 1, Seq::empty())
        } else {
            tokens_from(s, i + 1, Seq::empty())
        }
    } else {
        tokens_from(s, i + 1, cur.push(s[i]))
    }
}

/// The whitespace-separated tokens of `s`, in order.
pub open spec fn spec_tokens(s: Seq<char>) -> Seq<Seq<char>> {
    tokens_from(s, 0, Seq::empty())
}

/// `p` is a prefix of `s`.
pub open spec fn has_prefix(s: Seq<char>, p: Seq<char>) -> bool {
    p.len() <= s.len() && s.take(p.len() as int) == p
}

/// Decimal digit test.
pub open spec fn is_digit(c: char) -> bool {
    '0' <= c && c <= '9'
}

/// Numeric value of a decimal digit.
pub open spec fn digit_val(c: char) -> int {
    c as int - '0' as int
}

/// Every character of `s` is a decimal digit.
pub open spec fn all_digits(s: Seq<char>) -> bool {
    forall|i: int| 0 <= i < s.len() ==> is_digit(#[trigger] s[i])
}

/// Value of `s` read as a big-endian decimal numeral.
pub open spec fn digits_value(s: Seq<char>) -> int
    decreases s.len(),
{
    if s.len() == 0 {
        0
    } else {
        digits_value(s.drop_last()) * 10 + digit_val(s.last())
    }
}

/// First position at or after `i` holding a non-space character, or the
/// length of `s` when there is none.
pub open spec fn first_nonspace(s: Seq<char>, i: int) -> int
    decreases s.len() - i,
{
    if i < 0 || i >= s.len() {
        i
    } else if is_space(s[i]) {
        first_nonspace(s, i + 1)
    } else {
        i
    }
}

/// End (exclusive) of the last non-space character strictly before `j`, or
/// 0 when there is none.
pub open spec fn end_nonspace(s: Seq<char>, j: int) -> int
    decreases j,
{
    if j <= 0 || j > s.len() {
        0
    } else if is_space(s[j - 1]) {
        end_nonspace(s, j - 1)
    } else {
        j
    }
}

/// `s` with leading and trailing whitespace removed.
pub open spec fn spec_trim(s: Seq<char>) -> Seq<char> {
    let a = first_nonspace(s, 0);
    let b = end_nonspace(s, s.len() as int);
    if a <= b {
        s.subrange(a, b)
    } else {
        Seq::empty()
    }
}

/// Trims leading and trailing whitespace.
pub fn trim_str(s: &str) -> (r: String)
    ensures
        r@ == spec_trim(s@),
{
    let n: usize = s.unicode_len();
    let mut a: usize = 0;
    while a < n
        invariant
            a <= n,
            n == s@.len(),
            first_nonspace(s@, 0) == first_nonspace(s@, a as int),
        ensures
            a <= n,
            n == s@.len(),
            first_nonspace(s@, 0) == a as int,
            a < n ==> !is_space(s@[a as int]),
        decreases n - a,
    {
        let c = s.get_char(a);
        if !(c == ' ' || c == '\t' || c == '\r' || c == '\n') {
            break;
        }
        a = a + 1;
    }
    let mut b: usize = n;
    while b > a
        invariant
            a <= b <= n,
            n == s@.len(),
            a < n ==> !is_space(s@[a as int]),
            a < n ==> b > a,
            end_nonspace(s@, n as int) == end_nonspace(s@, b as int),
        ensures
            a <= b <= n,
            n == s@.len(),
            end_nonspace(s@, n as int) == end_nonspace(s@, b as int),
            b > a ==> !is_space(s@[b as int - 1]),
            b == a ==> a == n,
        decreases b,
    {
        let c = s.get_char(b - 1);
        if !(c == ' ' || c == '\t' || c == '\r' || c == '\n') {
            break;
        }
        b = b - 1;
    }
    if b > a {
        proof {
            assert(end_nonspace(s@, b as int) == b as int);
        }
        s.substring_char(a, b).to_owned()
    } else {
        proof {
            lemma_end_nonspace_bounds(s@, s@.len() as int);
            assert(spec_trim(s@) =~= Seq::<char>::empty());
        }
        String::new()
    }
}

/// `end_nonspace` stays within its bound.
proof fn lemma_end_nonspace_bounds(s: Seq<char>, j: int)
    requires
        0 <= j <= s.len(),
    ensures
        0 <= end_nonspace(s, j) <= j,
    decreases j,
{
    if j > 0 && is_space(s[j - 1]) {
        lemma_end_nonspace_bounds(s, j - 1);
    }
}

/// Character-wise string equality, with the view equality it decides.
pub fn str_eq(a: &str, b: &str) -> (r: bool)
    ensures
        r == (a@ == b@),
{
    let n: usize = a.unicode_len();
    if n != b.unicode_len() {
        return false;
    }
    let mut i: usize = 0;
    while i < n
        invariant
            i <= n,
            n == a@.len(),
            n == b@.len(),
            forall|j: int| 0 <= j < i ==> a@[j] == b@[j],
        decreases n - i,
    {
        if a.get_char(i) != b.get_char(i) {
            return false;
        }
        i = i + 1;
    }
    proof {
        assert(a@ =~= b@);
    }
    true
}

/// True when `s` consists of whitespace only (trims to the empty string).
pub fn is_blank(s: &str) -> (r: bool)
    ensures
        r == blank(s@),
{
    let n: usize = s.unicode_len();
    let mut i: usize = 0;
    while i < n
        invariant
            i <= n,
            n == s@.len(),
            forall|j: int| 0 <= j < i ==> is_space(#[trigger] s@[j]),
        decreases n - i,
    {
        let c = s.get_char(i);
        if !(c == ' ' || c == '\t' || c == '\r' || c == '\n') {
            return false;
        }
        i = i + 1;
    }
    true
}

/// True when `p` is a prefix of `s`.
pub fn starts_with_lit(s: &str, p: &str) -> (r: bool)
    ensures
        r == has_prefix(s@, p@),
{
    let n: usize = s.unicode_len();
    let m: usize = p.unicode_len();
    if m > n {
        return false;
    }
    let mut i: usize = 0;
    while i < m
        invariant
            i <= m <= n,
            n == s@.len(),
            m == p@.len(),
            forall|j: int| 0 <= j < i ==> s@[j] == p@[j],
        decreases m - i,
    {
        if s.get_char(i) != p.get_char(i) {
            proof {
                assert(s@.take(m as int)[i as int] != p@[i as int]);
            }
            return false;
        }
        i = i + 1;
    }
    proof {
        assert(s@.take(m as int) =~= p@);
    }
    true
}

/// Splits `s` into its whitespace-separated tokens.
pub fn tokenize(s: &str) -> (r: Vec<String>)
    ensures
        r.deep_view() == spec_tokens(s@),
{
    let n: usize = s.unicode_len();
    let mut out: Vec<String> = Vec::new();
    let mut i: usize = 0;
    while i < n
        invariant
            i <= n,
            n == s@.len(),
            spec_tokens(s@) == out.deep_view() + tokens_from(s@, i as int, Seq::empty()),
        decreases n - i,
    {
        let c = s.get_char(i);
        if c == ' ' || c == '\t' || c == '\r' || c == '\n' {
            i = i + 1;
        } else {
            // scan the maximal non-space run starting at i
            let start: usize = i;
            let mut j: usize = i;
            proof {
                assert(s@.subrange(start as int, start as int) =~= Seq::<char>::empty());
            }
            while j < n
                invariant
                    start <= j <= n,
                    start < n,
                    n == s@.len(),
                    tokens_from(s@, start as int, Seq::empty()) == tokens_from(
                        s@,
                        j as int,
                        s@.subrange(start as int, j as int),
                    ),
                    !is_space(s@[start as int]),
                ensures
                    start <= j <= n,
                    n == s@.len(),
                    tokens_from(s@, start as int, Seq::empty()) == tokens_from(
                        s@,
                        j as int,
                        s@.subrange(start as int, j as int),
                    ),
                    j > start,
                    j == n || is_space(s@[j as int]),
                decreases n - j,
            {
                proof {
                    if j == start {
                        assert(!is_space(s@[j as int]));
                    }
                }
                let c2 = s.get_char(j);
                if c2 == ' ' || c2 == '\t' || c2 == '\r' || c2 == '\n' {
                    break;
                }
                proof {
                    assert(s@.subrange(start as int, j as int).push(s@[j as int]) =~= s@.subrange(
                        start as int,
                        (j + 1) as int,
                    ));
                }
                j = j + 1;
            }
            let token: String = s.substring_char(start, j).to_owned();
            proof {
                let cur = s@.subrange(start as int, j as int);
                assert(cur.len() > 0);
                if j < n {
                    assert(tokens_from(s@, j as int, cur) == seq![cur] + tokens_from(
                        s@,
                        j + 1 as int,
                        Seq::<char>::empty(),
                    ));
                } else {
                    assert(tokens_from(s@, j as int, cur) == seq![cur]);
                }
            }
            let ghost prev = out.deep_view();
            out.push(token);
            proof {
                assert(out.deep_view() =~= prev.push(s@.subrange(start as int, j as int)));
            }
            if j < n {
                proof {
                    assert((out.deep_view() + tokens_from(s@, j + 1 as int, Seq::<char>::empty()))
                        =~= (prev + (seq![s@.subrange(start as int, j as int)] + tokens_from(
                        s@,
                        j + 1 as int,
                        Seq::<char>::empty(),
                    ))));
                }
                i = j + 1;
            } else {
                proof {
                    assert(out.deep_view() =~= (prev + seq![
                        s@.subrange(start as int, j as int),
                    ]));
                    assert(out.deep_view() + tokens_from(s@, n as int, Seq::<char>::empty())
                        =~= out.deep_view());
                }
                i = j;
            }
        }
    }
    proof {
        assert(out.deep_view() + tokens_from(s@, n as int, Seq::<char>::empty()) =~= out.deep_view());
    }
    out
}

/// Appending a digit multiplies the numeral's value by ten and adds the
/// digit, so a numeral's value never shrinks as it grows longer.
proof fn lemma_digits_value_nonneg(s: Seq<char>)
    requires
        all_digits(s),
    ensures
        digits_value(s) >= 0,
    decreases s.len(),
{
    if s.len() > 0 {
        assert(all_digits(s.drop_last()));
        lemma_digits_value_nonneg(s.drop_last());
    }
}

/// Parses `s[from..to]` as a decimal number, rejecting anything that is not
/// a non-empty run of digits with value at most `i64::MAX`.
pub fn parse_digits_range(s: &str, from: usize, to: usize) -> (r: Option<i64>)
    requires
        from <= to <= s@.len(),
    ensures
        match r {
            Some(v) => {
                &&& all_digits(s@.subrange(from as int, to as int))
                &&& to > from
                &&& v == digits_value(s@.subrange(from as int, to as int))
                &&& v >= 0
            },
            None => {
                ||| !all_digits(s@.subrange(from as int, to as int))
                ||| to == from
                ||| digits_value(s@.subrange(from as int, to as int)) > i64::MAX
            },
        },
{
    if to == from {
        return None;
    }
    let mut v: i64 = 0;
    let mut i: usize = from;
    while i < to
        invariant
            from <= i <= to <= s@.len(),
            all_digits(s@.subrange(from as int, i as int)),
            v == digits_value(s@.subrange(from as int, i as int)),
            v >= 0,
        decreases to - i,
    {
        let c = s.get_char(i);
        if !(c >= '0' && c <= '9') {
            proof {
                assert(s@.subrange(from as int, to as int)[i - from] == s@[i as int]);
            }
            return None;
        }
        let d: i64 = (c as u32 as i64) - 48;
        if v > (i64::MAX - d) / 10 {
            proof {
                let full = s@.subrange(from as int, to as int);
                let part = s@.subrange(from as int, i + 1 as int);
                assert(part.drop_last() =~= s@.subrange(from as int, i as int));
                assert(digits_value(part) > i64::MAX) by (nonlinear_arith)
                    requires
                        digits_value(part) == digits_value(part.drop_last()) * 10 + digit_val(
                            part.last(),
                        ),
                        digits_value(part.drop_last()) == v,
                        digit_val(part.last()) == d,
                        0 <= d <= 9,
                        v > (i64::MAX - d) / 10,
                        v >= 0,
                ;
                assert(part =~= full.take(i + 1 - from));
                if all_digits(full) {
                    lemma_digits_prefix_bound(full, i + 1 - from);
                }
            }
            return None;
        }
        proof {
            assert(v * 10 + d <= i64::MAX) by (nonlinear_arith)
                requires
                    0 <= d <= 9,
                    0 <= v <= (i64::MAX - d) / 10,
            ;
            let part = s@.subrange(from as int, i + 1 as int);
            assert(part.drop_last() =~= s@.subrange(from as int, i as int));
            assert(part.last() == s@[i as int]);
        }
        v = v * 10 + d;
        i = i + 1;
    }
    proof {
        assert(s@.subrange(from as int, i as int) =~= s@.subrange(from as int, to as int));
    }
    Some(v)
}

/// If a proper prefix of a numeral already exceeds a nonnegative bound, the
/// whole numeral does too.
proof fn lemma_digits_prefix_bound(s: Seq<char>, k: int)
    requires
        all_digits(s),
        0 <= k <= s.len(),
        digits_value(s.take(k)) > i64::MAX,
    ensures
        digits_value(s) > i64::MAX,
    decreases s.len() - k,
{
    if k < s.len() {
        let t = s.take(k + 1);
        assert(t.drop_last() =~= s.take(k));
        assert(all_digits(t));
        assert(digits_value(t) == digits_value(s.take(k)) * 10 + digit_val(t.last()));
        assert(digits_value(t) > i64::MAX) by (nonlinear_arith)
            requires
                digits_value(t) == digits_value(s.take(k)) * 10 + digit_val(t.last()),
                digits_value(s.take(k)) > i64::MAX,
                digit_val(t.last()) >= 0,
        ;
        lemma_digits_prefix_bound(s, k + 1);
    } else {
        assert(s.take(k) =~= s);
    }
}

} // verus!
