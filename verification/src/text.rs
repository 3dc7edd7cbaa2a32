//! Character-level helpers shared by the address and path code.
//!
//! Strings are modelled by their sequence of characters. The executable
//! helpers work on a `Vec<char>` copy of the text and report positions, so
//! that callers can cut the string itself with a single slice.

use vstd::prelude::*;

verus! {

/// The characters of `s`, in order.
pub fn chars_of(s: &str) -> (v: Vec<char>)
    ensures
        v@ == s@,
{
    let mut v: Vec<char> = Vec::new();
    for c in it: s.chars()
        invariant
            it.seq() == s@,
            v@ == it.seq().take(it.index() as int),
    {
        v.push(c);
    }
    v
}

/// The characters `from..to` of `s` as an owned string.
pub(crate) fn sub_string(s: &str, from: usize, to: usize) -> (r: String)
    requires
        from <= to <= s@.len(),
    ensures
        r@ == s@.subrange(from as int, to as int),
{
    String::from_str(s.substring_char(from, to))
}

/// Whether `c` carries the Unicode `White_Space` property.
pub open spec fn is_whitespace(c: char) -> bool {
    let n = c as u32;
    ||| 0x09 <= n <= 0x0D
    ||| n == 0x20
    ||| n == 0x85
    ||| n == 0xA0
    ||| n == 0x1680
    ||| 0x2000 <= n <= 0x200A
    ||| n == 0x2028
    ||| n == 0x2029
    ||| n == 0x202F
    ||| n == 0x205F
    ||| n == 0x3000
}

/// Whether `c` carries the Unicode `White_Space` property.
pub fn char_is_whitespace(c: char) -> (b: bool)
    ensures
        b == is_whitespace(c),
{
    let n: u32 = c as u32;
    (0x09 <= n && n <= 0x0D) || n == 0x20 || n == 0x85 || n == 0xA0 || n == 0x1680 || (0x2000 <= n
        && n <= 0x200A) || n == 0x2028 || n == 0x2029 || n == 0x202F || n == 0x205F || n == 0x3000
}

/// `s` without its leading run of whitespace.
pub open spec fn skip_whitespace(s: Seq<char>) -> Seq<char>
    decreases s.len(),
{
    if s.len() > 0 && is_whitespace(s[0]) {
        skip_whitespace(s.drop_first())
    } else {
        s
    }
}

/// `s` without its trailing run of whitespace.
pub open spec fn drop_trailing_whitespace(s: Seq<char>) -> Seq<char>
    decreases s.len(),
{
    if s.len() > 0 && is_whitespace(s.last()) {
        drop_trailing_whitespace(s.drop_last())
    } else {
        s
    }
}

/// `s` with whitespace removed from both ends.
pub open spec fn trim(s: Seq<char>) -> Seq<char> {
    drop_trailing_whitespace(skip_whitespace(s))
}

/// Skipping whitespace removes exactly the first `a` characters when those
/// are whitespace and the next one, if any, is not.
pub proof fn lemma_skip_whitespace(s: Seq<char>, a: int)
    requires
        0 <= a <= s.len(),
        forall|i: int| 0 <= i < a ==> is_whitespace(#[trigger] s[i]),
        a == s.len() || !is_whitespace(s[a]),
    ensures
        skip_whitespace(s) == s.skip(a),
    decreases a,
{
    if a == 0 {
        assert(s.skip(0) =~= s);
    } else {
        let t = s.drop_first();
        assert forall|i: int| 0 <= i < a - 1 implies is_whitespace(#[trigger] t[i]) by {
            assert(t[i] == s[i + 1]);
        }
        lemma_skip_whitespace(t, a - 1);
        assert(t.skip(a - 1) =~= s.skip(a));
    }
}

/// Dropping trailing whitespace keeps exactly the first `b` characters when
/// all later ones are whitespace and the one before position `b`, if any, is
/// not.
pub proof fn lemma_drop_trailing_whitespace(s: Seq<char>, b: int)
    requires
        0 <= b <= s.len(),
        forall|i: int| b <= i < s.len() ==> is_whitespace(#[trigger] s[i]),
        b == 0 || !is_whitespace(s[b - 1]),
    ensures
        drop_trailing_whitespace(s) == s.take(b),
    decreases s.len() - b,
{
    if b == s.len() {
        assert(s.take(b) =~= s);
    } else {
        let t = s.drop_last();
        assert forall|i: int| b <= i < t.len() implies is_whitespace(#[trigger] t[i]) by {
            assert(t[i] == s[i]);
        }
        lemma_drop_trailing_whitespace(t, b);
        assert(t.take(b) =~= s.take(b));
    }
}

/// The positions between which the trimmed text of `s` lies.
pub fn trim_bounds(s: &Vec<char>) -> (r: (usize, usize))
    ensures
        r.0 <= r.1 <= s.len(),
        s@.skip(r.0 as int) == skip_whitespace(s@),
        s@.subrange(r.0 as int, r.1 as int) == trim(s@),
{
    let n = s.len();
    let mut a: usize = 0;
    while a < n && char_is_whitespace(s[a])
        invariant
            a <= n,
            n == s.len(),
            forall|i: int| 0 <= i < a ==> is_whitespace(#[trigger] s@[i]),
        decreases n - a,
    {
        a += 1;
    }
    let mut b: usize = n;
    while b > a && char_is_whitespace(s[b - 1])
        invariant
            a <= b <= n,
            n == s.len(),
            forall|i: int| b <= i < n ==> is_whitespace(#[trigger] s@[i]),
        decreases b,
    {
        b -= 1;
    }
    proof {
        lemma_skip_whitespace(s@, a as int);
        let t = s@.skip(a as int);
        assert forall|i: int| b - a <= i < t.len() implies is_whitespace(#[trigger] t[i]) by {
            assert(t[i] == s@[i + a]);
        }
        lemma_drop_trailing_whitespace(t, b - a);
        assert(t.take(b - a) =~= s@.subrange(a as int, b as int));
    }
    (a, b)
}

/// `s` without `prefix` when it starts with it, else `s` itself.
pub open spec fn strip_prefix(s: Seq<char>, prefix: Seq<char>) -> Seq<char> {
    if prefix.is_prefix_of(s) {
        s.skip(prefix.len() as int)
    } else {
        s
    }
}

/// `s` with every leading repetition of a non-empty `prefix` removed.
pub open spec fn strip_repeated_prefix(s: Seq<char>, prefix: Seq<char>) -> Seq<char>
    decreases s.len(),
{
    if prefix.len() > 0 && prefix.is_prefix_of(s) {
        strip_repeated_prefix(s.skip(prefix.len() as int), prefix)
    } else {
        s
    }
}

/// Whether the text of `s` from position `at` on starts with `prefix`.
pub(crate) fn starts_with_at(s: &Vec<char>, at: usize, prefix: &Vec<char>) -> (b: bool)
    requires
        at <= s.len(),
    ensures
        b == prefix@.is_prefix_of(s@.skip(at as int)),
{
    let n = s.len();
    let m = prefix.len();
    if m > n - at {
        return false;
    }
    let mut i: usize = 0;
    while i < m
        invariant
            i <= m,
            m == prefix.len(),
            n == s.len(),
            at + m <= n,
            forall|k: int| 0 <= k < i ==> prefix@[k] == s@[at + k],
        decreases m - i,
    {
        if prefix[i] != s[at + i] {
            proof {
                let t = s@.skip(at as int);
                assert(t.subrange(0, m as int)[i as int] == s@[at + i]);
            }
            return false;
        }
        i += 1;
    }
    assert(prefix@ =~= s@.skip(at as int).subrange(0, m as int));
    true
}

/// The position in `s` behind every leading repetition of `prefix`.
pub fn repeated_prefix_end(s: &Vec<char>, prefix: &Vec<char>) -> (at: usize)
    ensures
        at <= s.len(),
        s@.skip(at as int) == strip_repeated_prefix(s@, prefix@),
{
    let m = prefix.len();
    let mut at: usize = 0;
    assert(s@.skip(0) =~= s@);
    if m == 0 {
        return 0;
    }
    while starts_with_at(s, at, prefix)
        invariant
            at <= s.len(),
            m == prefix.len(),
            m > 0,
            strip_repeated_prefix(s@.skip(at as int), prefix@) == strip_repeated_prefix(
                s@,
                prefix@,
            ),
        decreases s.len() - at,
    {
        assert(s@.skip(at as int).skip(m as int) =~= s@.skip(at + m));
        at += m;
    }
    at
}

/// The position of the first `c` in `s`, or the length of `s` when it holds
/// none.
pub open spec fn position(s: Seq<char>, c: char) -> int
    decreases s.len(),
{
    if s.len() == 0 {
        0
    } else if s[0] == c {
        0
    } else {
        1 + position(s.drop_first(), c)
    }
}

/// `position` is the least index that holds `c`.
pub proof fn lemma_position(s: Seq<char>, c: char, p: int)
    requires
        0 <= p <= s.len(),
        forall|i: int| 0 <= i < p ==> #[trigger] s[i] != c,
        p == s.len() || s[p] == c,
    ensures
        position(s, c) == p,
    decreases p,
{
    if p > 0 {
        let t = s.drop_first();
        assert forall|i: int| 0 <= i < p - 1 implies #[trigger] t[i] != c by {
            assert(t[i] == s[i + 1]);
        }
        lemma_position(t, c, p - 1);
    }
}

/// The position of the first `c` at or behind `from`, or the length of `s`.
pub(crate) fn find_from(s: &Vec<char>, from: usize, c: char) -> (p: usize)
    requires
        from <= s.len(),
    ensures
        from <= p <= s.len(),
        p == from + position(s@.skip(from as int), c),
{
    let n = s.len();
    let mut p: usize = from;
    while p < n && s[p] != c
        invariant
            from <= p <= n,
            n == s.len(),
            forall|i: int| from <= i < p ==> #[trigger] s@[i] != c,
        decreases n - p,
    {
        p += 1;
    }
    proof {
        let t = s@.skip(from as int);
        assert forall|i: int| 0 <= i < p - from implies #[trigger] t[i] != c by {
            assert(t[i] == s@[from + i]);
        }
        lemma_position(t, c, p - from);
    }
    p
}

/// Whether `c` is one of the ASCII digits `0` to `9`.
pub open spec fn is_digit(c: char) -> bool {
    0x30 <= c as u32 <= 0x39
}

/// Whether `s` holds ASCII digits only.
pub open spec fn all_digits(s: Seq<char>) -> bool {
    forall|i: int| 0 <= i < s.len() ==> is_digit(#[trigger] s[i])
}

/// The number that the decimal digits `s` write.
pub open spec fn decimal_value(s: Seq<char>) -> nat
    decreases s.len(),
{
    if s.len() == 0 {
        0
    } else {
        (decimal_value(s.drop_last()) * 10 + (s.last() as u32 - 0x30)) as nat
    }
}

/// The text that carries the digits of a number: `s` without one leading `+`.
pub open spec fn unsigned_digits(s: Seq<char>) -> Seq<char> {
    if s.len() > 0 && s[0] == '+' {
        s.drop_first()
    } else {
        s
    }
}

/// The 16-bit number that `s` writes in decimal: an optional `+`, then one or
/// more digits, with a value of at most 65535. Anything else writes none.
pub open spec fn parse_u16(s: Seq<char>) -> Option<u16> {
    let d = unsigned_digits(s);
    if d.len() > 0 && all_digits(d) && decimal_value(d) <= 0xFFFF {
        Some(decimal_value(d) as u16)
    } else {
        None
    }
}

/// A run of digits is worth at least as much as any of its prefixes.
pub proof fn lemma_decimal_value_grows(s: Seq<char>, k: int)
    requires
        0 <= k <= s.len(),
        all_digits(s),
    ensures
        decimal_value(s.take(k)) <= decimal_value(s),
    decreases s.len() - k,
{
    if k == s.len() {
        assert(s.take(k) =~= s);
    } else {
        let t = s.drop_last();
        assert(all_digits(t)) by {
            assert forall|i: int| 0 <= i < t.len() implies is_digit(#[trigger] t[i]) by {
                assert(t[i] == s[i]);
            }
        }
        lemma_decimal_value_grows(t, k);
        assert(t.take(k) =~= s.take(k));
        assert(is_digit(s[s.len() - 1]));
    }
}

/// Reads the characters `from..to` of `s` as a 16-bit decimal number.
pub(crate) fn parse_u16_between(s: &Vec<char>, from: usize, to: usize) -> (r: Option<u16>)
    requires
        from <= to <= s.len(),
    ensures
        r == parse_u16(s@.subrange(from as int, to as int)),
{
    let ghost text = s@.subrange(from as int, to as int);
    let start: usize = if from < to && s[from] == '+' {
        from + 1
    } else {
        from
    };
    let ghost d = unsigned_digits(text);
    assert(d =~= s@.subrange(start as int, to as int)) by {
        if from < to {
            assert(text[0] == s@[from as int]);
        }
    }
    if start == to {
        return None;
    }
    let mut value: u32 = 0;
    let mut i: usize = start;
    while i < to
        invariant
            from <= start <= i <= to <= s.len(),
            start < to,
            d == unsigned_digits(s@.subrange(from as int, to as int)),
            d == s@.subrange(start as int, to as int),
            all_digits(d.take(i - start)),
            value == decimal_value(d.take(i - start)),
            value <= 0xFFFF,
        decreases to - i,
    {
        let n: u32 = s[i] as u32;
        let ghost next = d.take(i + 1 - start);
        proof {
            assert(next.drop_last() =~= d.take(i - start));
            assert(next.last() == s@[i as int]);
        }
        if n < 0x30 || n > 0x39 {
            assert(!is_digit(d[i - start]));
            return None;
        }
        value = value * 10 + (n - 0x30);
        assert(all_digits(next)) by {
            assert forall|k: int| 0 <= k < next.len() implies is_digit(#[trigger] next[k]) by {
                if k < i - start {
                    assert(next[k] == d.take(i - start)[k]);
                }
            }
        }
        if value > 0xFFFF {
            proof {
                if all_digits(d) {
                    lemma_decimal_value_grows(d, i + 1 - start);
                }
            }
            return None;
        }
        i += 1;
    }
    assert(d.take(to - start) =~= d);
    Some(value as u16)
}

/// The separator that remote paths use in place of `c`.
pub open spec fn remote_separator(c: char) -> char {
    if c == '\\' {
        '/'
    } else {
        c
    }
}

/// `s` with every backslash rewritten to a forward slash.
pub open spec fn normalize_separators(s: Seq<char>) -> Seq<char> {
    Seq::new(s.len(), |i: int| remote_separator(s[i]))
}

} // verus!
