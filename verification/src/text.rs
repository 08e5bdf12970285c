//! Text held as bytes: whitespace, tokens, decimal numbers, prefixes and lines.

use vstd::prelude::*;
use vstd::slice::slice_subrange;
use vstd::utf8::encode_utf8;

verus! {

/// The ASCII whitespace bytes: tab, line feed, form feed, carriage return and space.
pub open spec fn is_space(b: u8) -> bool {
    b == 9 || b == 10 || b == 12 || b == 13 || b == 32
}

/// The ASCII digits `0` to `9`.
pub open spec fn is_digit(b: u8) -> bool {
    48 <= b <= 57
}

/// Whether a byte is ASCII whitespace.
pub fn byte_is_space(b: u8) -> (r: bool)
    ensures
        r == is_space(b),
{
    b == 9 || b == 10 || b == 12 || b == 13 || b == 32
}

/// The length of the longest prefix of `s` whose bytes all are whitespace
/// (`spaces` true) or all are not (`spaces` false).
pub open spec fn leading_run(s: Seq<u8>, spaces: bool) -> nat
    decreases s.len(),
{
    if s.len() > 0 && is_space(s[0]) == spaces {
        1 + leading_run(s.skip(1), spaces)
    } else {
        0
    }
}

/// The length of the longest suffix of `s` whose bytes all are whitespace
/// (`spaces` true) or all are not (`spaces` false).
pub open spec fn trailing_run(s: Seq<u8>, spaces: bool) -> nat
    decreases s.len(),
{
    if s.len() > 0 && is_space(s.last()) == spaces {
        1 + trailing_run(s.drop_last(), spaces)
    } else {
        0
    }
}

/// A suffix of `n` bytes of one kind, preceded by a byte of the other kind or
/// by nothing, is the trailing run.
pub proof fn lemma_trailing_run_is(s: Seq<u8>, spaces: bool, n: int)
    requires
        0 <= n <= s.len(),
        forall|i: int| s.len() - n <= i < s.len() ==> is_space(#[trigger] s[i]) == spaces,
        n < s.len() ==> is_space(s[s.len() - n - 1]) != spaces,
    ensures
        trailing_run(s, spaces) == n,
    decreases n,
{
    if n > 0 {
        let t = s.drop_last();
        assert(is_space(s[s.len() - 1]) == spaces);
        assert forall|i: int| t.len() - (n - 1) <= i < t.len() implies is_space(#[trigger] t[i])
            == spaces by {
            assert(t[i] == s[i]);
        }
        lemma_trailing_run_is(t, spaces, n - 1);
    }
}

/// Counts the bytes of one kind that `s` holds from index `from` on, up to
/// the first byte of the other kind.
pub fn count_leading(s: &[u8], from: usize, spaces: bool) -> (n: usize)
    requires
        from <= s@.len(),
    ensures
        n == leading_run(s@.skip(from as int), spaces),
        from + n <= s@.len(),
{
    let mut i: usize = from;
    while i < s.len() && byte_is_space(s[i]) == spaces
        invariant
            from <= i <= s@.len(),
            leading_run(s@.skip(from as int), spaces) == (i - from) + leading_run(
                s@.skip(i as int),
                spaces,
            ),
        decreases s@.len() - i,
    {
        assert(s@.skip(i as int).skip(1) =~= s@.skip(i + 1));
        i = i + 1;
    }
    i - from
}

/// Counts the bytes of one kind that `s` holds before index `to`, back to
/// the last byte of the other kind.
pub fn count_trailing(s: &[u8], to: usize, spaces: bool) -> (n: usize)
    requires
        to <= s@.len(),
    ensures
        n == trailing_run(s@.take(to as int), spaces),
        n <= to,
{
    let mut i: usize = to;
    while i > 0 && byte_is_space(s[i - 1]) == spaces
        invariant
            i <= to <= s@.len(),
            trailing_run(s@.take(to as int), spaces) == (to - i) + trailing_run(
                s@.take(i as int),
                spaces,
            ),
        decreases i,
    {
        assert(s@.take(i as int).drop_last() =~= s@.take(i - 1));
        i = i - 1;
    }
    to - i
}

/// The first whitespace-delimited token of `s`; empty where `s` holds none.
pub open spec fn first_token(s: Seq<u8>) -> Seq<u8> {
    let rest = s.skip(leading_run(s, true) as int);
    rest.take(leading_run(rest, false) as int)
}

/// Where the last whitespace-delimited token of `s` ends: before the
/// whitespace that `s` ends with.
pub open spec fn last_token_end(s: Seq<u8>) -> int {
    s.len() - trailing_run(s, true)
}

/// Where the last whitespace-delimited token of `s` starts.
pub open spec fn last_token_start(s: Seq<u8>) -> int {
    last_token_end(s) - trailing_run(s.take(last_token_end(s)), false)
}

/// The last whitespace-delimited token of `s`; empty where `s` holds none.
pub open spec fn last_token(s: Seq<u8>) -> Seq<u8> {
    s.subrange(last_token_start(s), last_token_end(s))
}

/// Whether every byte of `s` is a decimal digit.
pub open spec fn all_digits(s: Seq<u8>) -> bool {
    forall|i: int| 0 <= i < s.len() ==> is_digit(#[trigger] s[i])
}

/// The number that a string of decimal digits spells; 0 for the empty string.
pub open spec fn digits_value(s: Seq<u8>) -> nat
    decreases s.len(),
{
    if s.len() == 0 {
        0
    } else {
        10 * digits_value(s.drop_last()) + (s.last() - 48) as nat
    }
}

/// The decimal digits that spell a number, without leading zeros.
pub open spec fn decimal_digits(n: nat) -> Seq<u8>
    decreases n,
{
    if n < 10 {
        seq![(48 + n) as u8]
    } else {
        decimal_digits(n / 10).push((48 + n % 10) as u8)
    }
}

/// The digits that spell a number are digits, and spell that number.
pub proof fn lemma_decimal_digits(n: nat)
    ensures
        decimal_digits(n).len() > 0,
        all_digits(decimal_digits(n)),
        digits_value(decimal_digits(n)) == n,
        decimal_value(decimal_digits(n)) == Some(n),
    decreases n,
{
    let digits = decimal_digits(n);
    if n < 10 {
        assert(digits.drop_last() =~= Seq::<u8>::empty());
        assert(digits_value(digits.drop_last()) == 0);
    } else {
        let front = decimal_digits(n / 10);
        lemma_decimal_digits(n / 10);
        assert(digits.drop_last() =~= front);
        assert forall|i: int| 0 <= i < digits.len() implies is_digit(#[trigger] digits[i]) by {
            if i < front.len() {
                assert(digits[i] == front[i]);
            }
        }
    }
    assert(digits[0] != 43);
}

/// The digits of a token: the token without the one `+` that may lead it.
pub open spec fn unsigned_part(token: Seq<u8>) -> Seq<u8> {
    if token.len() > 0 && token[0] == 43 {
        token.skip(1)
    } else {
        token
    }
}

/// The number that a token spells: one or more decimal digits, which one `+`
/// may precede. Anything else spells no number.
pub open spec fn decimal_value(token: Seq<u8>) -> Option<nat> {
    let digits = unsigned_part(token);
    if digits.len() > 0 && all_digits(digits) {
        Some(digits_value(digits))
    } else {
        None
    }
}

/// Reads the number that `token` spells, where that number is at most `limit`.
pub fn parse_decimal(token: &[u8], limit: u64) -> (r: Option<u64>)
    ensures
        r == match decimal_value(token@) {
            Some(v) => if v <= limit {
                Some(v as u64)
            } else {
                None
            },
            None => None,
        },
{
    let n = token.len();
    let start: usize = if n > 0 && token[0] == 43 {
        1
    } else {
        0
    };
    if start == n {
        return None;
    }
    let ghost digits = unsigned_part(token@);
    assert(digits =~= token@.skip(start as int));
    let mut acc: u64 = 0;
    let mut over = false;
    let mut i: usize = start;
    while i < n
        invariant
            start <= i <= n == token@.len(),
            digits == token@.skip(start as int),
            digits == unsigned_part(token@),
            all_digits(digits.take(i - start)),
            !over ==> acc == digits_value(digits.take(i - start)) && acc <= limit,
            over ==> digits_value(digits.take(i - start)) > limit,
        decreases n - i,
    {
        let b = token[i];
        if b < 48 || b > 57 {
            assert(digits[i - start] == b && !is_digit(b));
            return None;
        }
        assert(digits.take(i + 1 - start).drop_last() =~= digits.take(i - start));
        assert(digits.take(i + 1 - start).last() == b);
        if !over {
            let next: u128 = (acc as u128) * 10 + ((b - 48) as u128);
            if next > limit as u128 {
                over = true;
            } else {
                acc = next as u64;
            }
        }
        i = i + 1;
    }
    assert(digits.take(n - start) =~= digits);
    if over {
        None
    } else {
        Some(acc)
    }
}

/// The bytes of a text.
pub open spec fn bytes_of(s: &str) -> Seq<u8> {
    encode_utf8(s@)
}

/// Whether `s` begins with `prefix`.
pub open spec fn starts_with(s: Seq<u8>, prefix: Seq<u8>) -> bool {
    prefix.len() <= s.len() && s.take(prefix.len() as int) == prefix
}

/// Whether `s` ends with `suffix`.
pub open spec fn ends_with(s: Seq<u8>, suffix: Seq<u8>) -> bool {
    suffix.len() <= s.len() && s.skip(s.len() - suffix.len()) == suffix
}

/// Whether `s` begins with `prefix`.
pub fn has_prefix(s: &[u8], prefix: &[u8]) -> (r: bool)
    ensures
        r == starts_with(s@, prefix@),
{
    let n = prefix.len();
    if n > s.len() {
        return false;
    }
    let mut i: usize = 0;
    while i < n
        invariant
            i <= n == prefix@.len() <= s@.len(),
            forall|k: int| 0 <= k < i ==> s@[k] == prefix@[k],
        decreases n - i,
    {
        if s[i] != prefix[i] {
            assert(s@.take(n as int)[i as int] != prefix@[i as int]);
            return false;
        }
        i = i + 1;
    }
    assert(s@.take(n as int) =~= prefix@);
    true
}

/// The length of the first line of `s`, its line feed included; the length of
/// `s` where it holds no line feed.
pub open spec fn first_line_len(s: Seq<u8>) -> nat
    decreases s.len(),
{
    if s.len() == 0 {
        0
    } else if s[0] == 10 {
        1
    } else {
        1 + first_line_len(s.skip(1))
    }
}

/// The first line of a text that is not empty is not empty, and lies in the
/// text; a line feed can only be its last byte.
pub proof fn lemma_first_line_len(s: Seq<u8>)
    ensures
        first_line_len(s) <= s.len(),
        s.len() > 0 ==> first_line_len(s) > 0,
        forall|i: int| 0 <= i < first_line_len(s) - 1 ==> #[trigger] s[i] != 10,
        0 < first_line_len(s) < s.len() ==> s[first_line_len(s) - 1] == 10,
    decreases s.len(),
{
    if s.len() > 0 && s[0] != 10 {
        let t = s.skip(1);
        lemma_first_line_len(t);
        assert forall|i: int| 0 <= i < first_line_len(s) - 1 implies #[trigger] s[i] != 10 by {
            if i > 0 {
                assert(s[i] == t[i - 1]);
            }
        }
        if first_line_len(s) < s.len() {
            assert(s[first_line_len(s) - 1] == t[first_line_len(t) - 1]);
        }
    }
}

/// The lines of `s` in order, each with the line feed that ends it. What
/// follows the last line feed is a line too, unless it is empty.
pub open spec fn lines(s: Seq<u8>) -> Seq<Seq<u8>>
    decreases s.len(),
    via lines_decreases
{
    if s.len() == 0 {
        Seq::empty()
    } else {
        let n = first_line_len(s) as int;
        seq![s.take(n)] + lines(s.skip(n))
    }
}

#[via_fn]
proof fn lines_decreases(s: Seq<u8>) {
    lemma_first_line_len(s);
}

/// The length of the line of `s` that starts at index `from`.
pub fn line_length(s: &[u8], from: usize) -> (n: usize)
    requires
        from <= s@.len(),
    ensures
        n == first_line_len(s@.skip(from as int)),
        from + n <= s@.len(),
{
    let mut i: usize = from;
    while i < s.len() && s[i] != 10
        invariant
            from <= i <= s@.len(),
            first_line_len(s@.skip(from as int)) == (i - from) + first_line_len(
                s@.skip(i as int),
            ),
        decreases s@.len() - i,
    {
        assert(s@.skip(i as int).skip(1) =~= s@.skip(i + 1));
        i = i + 1;
    }
    if i < s.len() {
        i = i + 1;
    }
    i - from
}

/// Cuts `s` into its lines.
pub fn split_lines(s: &[u8]) -> (r: Vec<&[u8]>)
    ensures
        r@.len() == lines(s@).len(),
        forall|i: int| 0 <= i < r@.len() ==> (#[trigger] r@[i])@ == lines(s@)[i],
{
    let mut out: Vec<&[u8]> = Vec::new();
    let mut pos: usize = 0;
    assert(s@.skip(0) =~= s@);
    while pos < s.len()
        invariant
            pos <= s@.len(),
            lines(s@) =~= Seq::new(out@.len(), |i: int| out@[i]@) + lines(s@.skip(pos as int)),
        decreases s@.len() - pos,
    {
        let n = line_length(s, pos);
        proof {
            lemma_first_line_len(s@.skip(pos as int));
            assert(s@.skip(pos as int).skip(n as int) =~= s@.skip(pos + n));
            assert(s@.skip(pos as int).take(n as int) =~= s@.subrange(pos as int, pos + n));
        }
        let line = slice_subrange(s, pos, pos + n);
        out.push(line);
        pos = pos + n;
    }
    assert(lines(s@.skip(pos as int)) =~= Seq::<Seq<u8>>::empty());
    out
}

/// Whether two byte strings hold the same bytes.
pub fn bytes_equal(a: &[u8], b: &[u8]) -> (r: bool)
    ensures
        r == (a@ == b@),
{
    if a.len() != b.len() {
        return false;
    }
    let n = a.len();
    let mut i: usize = 0;
    while i < n
        invariant
            i <= n == a@.len() == b@.len(),
            forall|k: int| 0 <= k < i ==> a@[k] == b@[k],
        decreases n - i,
    {
        if a[i] != b[i] {
            return false;
        }
        i = i + 1;
    }
    assert(a@ =~= b@);
    true
}

/// The number of leading bytes that `a` and `b` have in common.
pub open spec fn common_prefix_len(a: Seq<u8>, b: Seq<u8>) -> nat
    decreases a.len(),
{
    if a.len() > 0 && b.len() > 0 && a[0] == b[0] {
        1 + common_prefix_len(a.skip(1), b.skip(1))
    } else {
        0
    }
}

/// Whether `a` comes before `b` in the order of byte strings: `a` holds the
/// smaller byte where the two first differ, or `a` ends there and `b` goes on.
pub open spec fn text_before(a: Seq<u8>, b: Seq<u8>) -> bool {
    let k = common_prefix_len(a, b) as int;
    k < b.len() && (k == a.len() || a[k] < b[k])
}

/// The common prefix lies in both strings, they agree on it, and it cannot be
/// made longer.
pub proof fn lemma_common_prefix(a: Seq<u8>, b: Seq<u8>)
    ensures
        common_prefix_len(a, b) <= a.len(),
        common_prefix_len(a, b) <= b.len(),
        forall|i: int| 0 <= i < common_prefix_len(a, b) ==> #[trigger] a[i] == b[i],
        ({
            let k = common_prefix_len(a, b) as int;
            k < a.len() && k < b.len() ==> a[k] != b[k]
        }),
    decreases a.len(),
{
    if a.len() > 0 && b.len() > 0 && a[0] == b[0] {
        let x = a.skip(1);
        let y = b.skip(1);
        lemma_common_prefix(x, y);
        assert forall|i: int| 0 <= i < common_prefix_len(a, b) implies #[trigger] a[i] == b[i] by {
            if i > 0 {
                assert(a[i] == x[i - 1]);
                assert(b[i] == y[i - 1]);
            }
        }
        let k = common_prefix_len(x, y) as int;
        if k < x.len() && k < y.len() {
            assert(a[k + 1] == x[k]);
            assert(b[k + 1] == y[k]);
        }
    }
}

/// A prefix of `k` bytes on which two strings agree, and after which they
/// differ or one of them ends, is their common prefix.
pub proof fn lemma_common_prefix_is(a: Seq<u8>, b: Seq<u8>, k: int)
    requires
        0 <= k <= a.len(),
        k <= b.len(),
        forall|i: int| 0 <= i < k ==> #[trigger] a[i] == b[i],
        k < a.len() && k < b.len() ==> a[k] != b[k],
    ensures
        common_prefix_len(a, b) == k,
    decreases k,
{
    if k > 0 {
        let x = a.skip(1);
        let y = b.skip(1);
        assert(a[0] == b[0]);
        assert forall|i: int| 0 <= i < k - 1 implies #[trigger] x[i] == y[i] by {
            assert(a[i + 1] == b[i + 1]);
        }
        lemma_common_prefix_is(x, y, k - 1);
    }
}

/// Of two byte strings exactly one holds: the first comes before the second,
/// they are equal, or the second comes before the first.
pub proof fn lemma_text_order_total(a: Seq<u8>, b: Seq<u8>)
    ensures
        text_before(a, b) || a == b || text_before(b, a),
        !(text_before(a, b) && text_before(b, a)),
        !(text_before(a, b) && a == b),
{
    lemma_common_prefix(a, b);
    lemma_common_prefix(b, a);
    lemma_common_prefix_is(b, a, common_prefix_len(a, b) as int);
    if !text_before(a, b) && !text_before(b, a) {
        assert(a =~= b);
    }
}

/// What comes before a string that comes before a third comes before the third.
pub proof fn lemma_text_order_transitive(a: Seq<u8>, b: Seq<u8>, c: Seq<u8>)
    requires
        text_before(a, b),
        text_before(b, c),
    ensures
        text_before(a, c),
{
    lemma_common_prefix(a, b);
    lemma_common_prefix(b, c);
    let i = common_prefix_len(a, b) as int;
    let j = common_prefix_len(b, c) as int;
    let k = if i <= j {
        i
    } else {
        j
    };
    assert forall|n: int| 0 <= n < k implies #[trigger] a[n] == c[n] by {
        assert(a[n] == b[n]);
        assert(b[n] == c[n]);
    }
    if i < j {
        assert(b[i] == c[i]);
    }
    if j < i {
        assert(a[j] == b[j]);
    }
    lemma_common_prefix_is(a, c, k);
}

/// Whether `a` comes before `b` in the order of byte strings.
pub fn precedes(a: &[u8], b: &[u8]) -> (r: bool)
    ensures
        r == text_before(a@, b@),
{
    let mut i: usize = 0;
    while i < a.len() && i < b.len() && a[i] == b[i]
        invariant
            i <= a@.len(),
            i <= b@.len(),
            forall|k: int| 0 <= k < i ==> a@[k] == b@[k],
        decreases a@.len() - i,
    {
        i = i + 1;
    }
    proof {
        lemma_common_prefix_is(a@, b@, i as int);
    }
    i < b.len() && (i == a.len() || a[i] < b[i])
}

} // verus!
