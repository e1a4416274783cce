//! Small text scanners over character sequences: whitespace-separated words,
//! dot-separated fields and decimal `u32` numbers, with the meaning that
//! Rust's `split_whitespace`, `split('.')` and `str::parse::<u32>` give them.

use vstd::prelude::*;
use vstd::std_specs::iter::IteratorSpec;

verus! {

/// Unicode `White_Space`, the set that `char::is_whitespace` tests.
pub open spec fn spec_is_whitespace(c: char) -> bool {
    ||| c == ' '
    ||| ('\t' <= c && c <= '\r')
    ||| c == '\u{85}'
    ||| c == '\u{a0}'
    ||| c == '\u{1680}'
    ||| ('\u{2000}' <= c && c <= '\u{200a}')
    ||| c == '\u{2028}'
    ||| c == '\u{2029}'
    ||| c == '\u{202f}'
    ||| c == '\u{205f}'
    ||| c == '\u{3000}'
}

/// Executable whitespace test.
pub fn is_whitespace(c: char) -> (r: bool)
    ensures
        r == spec_is_whitespace(c),
{
    c == ' ' || ('\t' <= c && c <= '\r') || c == '\u{85}' || c == '\u{a0}' || c == '\u{1680}'
        || ('\u{2000}' <= c && c <= '\u{200a}') || c == '\u{2028}' || c == '\u{2029}'
        || c == '\u{202f}' || c == '\u{205f}' || c == '\u{3000}'
}

/// `s` without its leading whitespace.
pub open spec fn skip_ws(s: Seq<char>) -> Seq<char>
    decreases s.len(),
{
    if s.len() > 0 && spec_is_whitespace(s[0]) {
        skip_ws(s.drop_first())
    } else {
        s
    }
}

/// Length of the run of non-whitespace characters at the start of `s`.
pub open spec fn word_len(s: Seq<char>) -> nat
    decreases s.len(),
{
    if s.len() > 0 && !spec_is_whitespace(s[0]) {
        1 + word_len(s.drop_first())
    } else {
        0
    }
}

/// The `n`-th (0-based) maximal run of non-whitespace characters in `s`,
/// that is the `n`-th item of `split_whitespace`.
pub open spec fn nth_word(s: Seq<char>, n: nat) -> Option<Seq<char>>
    decreases s.len(), n,
{
    let t = skip_ws(s);
    if t.len() == 0 {
        None
    } else if n == 0 {
        Some(t.take(word_len(t) as int))
    } else {
        proof {
            lemma_skip_ws_len(s);
            lemma_word_len_bounds(t);
        }
        nth_word(t.skip(word_len(t) as int), (n - 1) as nat)
    }
}

pub proof fn lemma_skip_ws_len(s: Seq<char>)
    ensures
        skip_ws(s).len() <= s.len(),
        skip_ws(s) == s.skip(s.len() - skip_ws(s).len()),
        skip_ws(s).len() > 0 ==> !spec_is_whitespace(skip_ws(s)[0]),
        forall|i: int| 0 <= i < s.len() - skip_ws(s).len() ==> spec_is_whitespace(#[trigger] s[i]),
    decreases s.len(),
{
    if s.len() > 0 && spec_is_whitespace(s[0]) {
        lemma_skip_ws_len(s.drop_first());
        assert(s.drop_first().skip(s.drop_first().len() - skip_ws(s).len()) =~= s.skip(
            s.len() - skip_ws(s).len(),
        ));
        assert forall|i: int| 0 <= i < s.len() - skip_ws(s).len() implies spec_is_whitespace(
            #[trigger] s[i],
        ) by {
            if i > 0 {
                assert(s[i] == s.drop_first()[i - 1]);
            }
        }
    } else {
        assert(s.skip(0) =~= s);
    }
}

pub proof fn lemma_word_len_bounds(s: Seq<char>)
    ensures
        word_len(s) <= s.len(),
        s.len() > 0 && !spec_is_whitespace(s[0]) ==> word_len(s) > 0,
        forall|i: int| 0 <= i < word_len(s) ==> !spec_is_whitespace(#[trigger] s[i]),
        word_len(s) < s.len() ==> spec_is_whitespace(s[word_len(s) as int]),
    decreases s.len(),
{
    if s.len() > 0 && !spec_is_whitespace(s[0]) {
        lemma_word_len_bounds(s.drop_first());
        assert forall|i: int| 0 <= i < word_len(s) implies !spec_is_whitespace(#[trigger] s[i]) by {
            if i > 0 {
                assert(s[i] == s.drop_first()[i - 1]);
            }
        }
        if word_len(s) < s.len() {
            assert(s[word_len(s) as int] == s.drop_first()[word_len(s.drop_first()) as int]);
        }
    }
}

/// Appends a character to a string.
///
/// Trusted: calls `String::push`, which std documents as appending the
/// character to the end of the string.
#[verifier::external_body]
pub(crate) fn string_push(s: &mut String, c: char)
    ensures
        final(s)@ == old(s)@.push(c),
{
    s.push(c)
}

/// A string holding the given characters, in order.
pub fn string_from_chars(cs: &Vec<char>, lo: usize, hi: usize) -> (s: String)
    requires
        lo <= hi <= cs@.len(),
    ensures
        s@ == cs@.subrange(lo as int, hi as int),
{
    let mut out = String::new();
    let mut i = lo;
    while i < hi
        invariant
            lo <= i <= hi <= cs@.len(),
            out@ == cs@.subrange(lo as int, i as int),
        decreases hi - i,
    {
        string_push(&mut out, cs[i]);
        assert(cs@.subrange(lo as int, i + 1) =~= cs@.subrange(lo as int, i as int).push(cs@[i as int]));
        i = i + 1;
    }
    out
}

/// The characters of a string slice, in order.
pub fn chars_of(s: &str) -> (v: Vec<char>)
    ensures
        v@ == s@,
{
    broadcast use vstd::string::axiom_spec_iter, vstd::string::next_postcondition;

    let mut v: Vec<char> = Vec::new();
    let mut it = s.chars();
    loop
        invariant
            v@ + it.remaining() == s@,
            it.obeys_prophetic_iter_laws(),
            it.decrease() is Some,
        decreases it.decrease()->0,
    {
        let ghost before = it.remaining();
        match it.next() {
            Some(c) => {
                assert(v@.push(c) + it.remaining() =~= v@ + before);
                v.push(c);
            },
            None => {
                assert(v@ + it.remaining() =~= v@);
                return v;
            },
        }
    }
}

/// Index of the first non-whitespace character at or after `start`.
fn skip_ws_from(s: &Vec<char>, start: usize) -> (i: usize)
    requires
        start <= s@.len(),
    ensures
        start <= i <= s@.len(),
        skip_ws(s@.skip(start as int)) == s@.skip(i as int),
{
    let mut i = start;
    while i < s.len() && is_whitespace(s[i])
        invariant
            start <= i <= s@.len(),
            skip_ws(s@.skip(start as int)) == skip_ws(s@.skip(i as int)),
        decreases s@.len() - i,
    {
        assert(s@.skip(i as int).drop_first() =~= s@.skip(i + 1));
        i = i + 1;
    }
    i
}

/// Index just past the run of non-whitespace characters starting at `start`.
fn word_end_from(s: &Vec<char>, start: usize) -> (j: usize)
    requires
        start <= s@.len(),
    ensures
        start <= j <= s@.len(),
        j - start == word_len(s@.skip(start as int)),
{
    let mut j = start;
    while j < s.len() && !is_whitespace(s[j])
        invariant
            start <= j <= s@.len(),
            word_len(s@.skip(start as int)) == (j - start) + word_len(s@.skip(j as int)),
        decreases s@.len() - j,
    {
        assert(s@.skip(j as int).drop_first() =~= s@.skip(j + 1));
        j = j + 1;
    }
    j
}

/// Bounds `[begin, end)` of the `n`-th whitespace-separated word of `s`.
pub fn nth_word_range(s: &Vec<char>, n: usize) -> (r: Option<(usize, usize)>)
    ensures
        match r {
            None => nth_word(s@, n as nat) is None,
            Some((b, e)) => b <= e <= s@.len() && nth_word(s@, n as nat) == Some(
                s@.subrange(b as int, e as int),
            ),
        },
{
    let mut pos: usize = 0;
    let mut k: usize = n;
    assert(s@.skip(0) =~= s@);
    loop
        invariant
            pos <= s@.len(),
            k <= n,
            nth_word(s@, n as nat) == nth_word(s@.skip(pos as int), k as nat),
        decreases s@.len() - pos, k,
    {
        let b = skip_ws_from(s, pos);
        assert(s@.skip(pos as int).len() == s@.len() - pos);
        if b == s.len() {
            assert(s@.skip(b as int).len() == 0);
            return None;
        }
        let e = word_end_from(s, b);
        proof {
            lemma_word_len_bounds(s@.skip(b as int));
            lemma_skip_ws_len(s@.skip(pos as int));
            assert(!spec_is_whitespace(s@.skip(b as int)[0]));
        }
        if k == 0 {
            assert(s@.skip(b as int).take(word_len(s@.skip(b as int)) as int) =~= s@.subrange(
                b as int,
                e as int,
            ));
            return Some((b, e));
        }
        assert(s@.skip(b as int).skip(word_len(s@.skip(b as int)) as int) =~= s@.skip(e as int));
        pos = e;
        k = k - 1;
    }
}

/// Index of the first `'.'` in `s`, or its length when there is none.
pub open spec fn field_len(s: Seq<char>) -> nat
    decreases s.len(),
{
    if s.len() > 0 && s[0] != '.' {
        1 + field_len(s.drop_first())
    } else {
        0
    }
}

/// The `k`-th (0-based) item of `split('.')` on `s`.
pub open spec fn nth_field(s: Seq<char>, k: nat) -> Option<Seq<char>>
    decreases s.len(), k,
{
    let f = field_len(s);
    if k == 0 {
        Some(s.take(f as int))
    } else if f >= s.len() {
        None
    } else {
        nth_field(s.skip(f + 1 as int), (k - 1) as nat)
    }
}

pub proof fn lemma_field_len_bounds(s: Seq<char>)
    ensures
        field_len(s) <= s.len(),
        field_len(s) < s.len() ==> s[field_len(s) as int] == '.',
    decreases s.len(),
{
    if s.len() > 0 && s[0] != '.' {
        lemma_field_len_bounds(s.drop_first());
        if field_len(s) < s.len() {
            assert(s[field_len(s) as int] == s.drop_first()[field_len(s.drop_first()) as int]);
        }
    }
}

/// Bounds of the `k`-th `'.'`-separated field of `s[lo..hi]`.
pub fn nth_field_range(s: &Vec<char>, lo: usize, hi: usize, k: usize) -> (r: Option<(usize, usize)>)
    requires
        lo <= hi <= s@.len(),
    ensures
        match r {
            None => nth_field(s@.subrange(lo as int, hi as int), k as nat) is None,
            Some((b, e)) => lo <= b <= e <= hi && nth_field(s@.subrange(lo as int, hi as int), k as nat)
                == Some(s@.subrange(b as int, e as int)),
        },
{
    let mut pos = lo;
    let mut j: usize = k;
    assert(s@.subrange(lo as int, hi as int) =~= s@.subrange(pos as int, hi as int));
    loop
        invariant
            lo <= pos <= hi <= s@.len(),
            j <= k,
            nth_field(s@.subrange(lo as int, hi as int), k as nat) == nth_field(
                s@.subrange(pos as int, hi as int),
                j as nat,
            ),
        decreases hi - pos, j,
    {
        let mut e = pos;
        while e < hi && s[e] != '.'
            invariant
                pos <= e <= hi,
                hi <= s@.len(),
                field_len(s@.subrange(pos as int, hi as int)) == (e - pos) + field_len(
                    s@.subrange(e as int, hi as int),
                ),
            decreases hi - e,
        {
            assert(s@.subrange(e as int, hi as int).drop_first() =~= s@.subrange(e + 1, hi as int));
            e = e + 1;
        }
        assert(field_len(s@.subrange(e as int, hi as int)) == 0);
        if j == 0 {
            assert(s@.subrange(pos as int, hi as int).take((e - pos) as int) =~= s@.subrange(
                pos as int,
                e as int,
            ));
            return Some((pos, e));
        }
        if e >= hi {
            return None;
        }
        assert(s@.subrange(pos as int, hi as int).skip((e - pos) + 1) =~= s@.subrange(
            e + 1,
            hi as int,
        ));
        pos = e + 1;
        j = j - 1;
    }
}

/// Whether `c` is an ASCII decimal digit.
pub open spec fn is_digit(c: char) -> bool {
    '0' <= c && c <= '9'
}

/// Value of a digit character.
pub open spec fn digit_value(c: char) -> nat {
    (c as int - '0' as int) as nat
}

/// Value of a string of decimal digits.
pub open spec fn digits_value(d: Seq<char>) -> nat
    decreases d.len(),
{
    if d.len() == 0 {
        0
    } else {
        digits_value(d.drop_last()) * 10 + digit_value(d.last())
    }
}

/// Whether every character of `d` is an ASCII digit.
pub open spec fn all_digits(d: Seq<char>) -> bool {
    forall|i: int| 0 <= i < d.len() ==> is_digit(#[trigger] d[i])
}

/// What `str::parse::<u32>` gives: an optional `'+'`, then one or more
/// ASCII digits whose value fits in 32 bits.
pub open spec fn spec_parse_u32(s: Seq<char>) -> Option<u32> {
    let d = if s.len() > 0 && s[0] == '+' {
        s.drop_first()
    } else {
        s
    };
    if d.len() == 0 || !all_digits(d) {
        None
    } else if digits_value(d) > u32::MAX {
        None
    } else {
        Some(digits_value(d) as u32)
    }
}

proof fn lemma_digits_value_monotone(d: Seq<char>, n: int)
    requires
        0 <= n <= d.len(),
        forall|i: int| 0 <= i < d.len() ==> is_digit(#[trigger] d[i]),
    ensures
        digits_value(d.take(n)) <= digits_value(d),
    decreases d.len() - n,
{
    if n < d.len() {
        lemma_digits_value_monotone(d, n + 1);
        assert(d.take(n + 1).drop_last() =~= d.take(n));
    } else {
        assert(d.take(n) =~= d);
    }
}

/// Parses `s[lo..hi]` as `str::parse::<u32>` would.
pub fn parse_u32(s: &Vec<char>, lo: usize, hi: usize) -> (r: Option<u32>)
    requires
        lo <= hi <= s@.len(),
    ensures
        r == spec_parse_u32(s@.subrange(lo as int, hi as int)),
{
    let ghost t = s@.subrange(lo as int, hi as int);
    let mut start = lo;
    if lo < hi && s[lo] == '+' {
        start = lo + 1;
    }
    let ghost d = if t.len() > 0 && t[0] == '+' {
        t.drop_first()
    } else {
        t
    };
    assert(d =~= s@.subrange(start as int, hi as int));
    if start == hi {
        return None;
    }
    let mut value: u64 = 0;
    let mut i = start;
    while i < hi
        invariant
            start <= i <= hi <= s@.len(),
            d == s@.subrange(start as int, hi as int),
            t == s@.subrange(lo as int, hi as int),
            d == (if t.len() > 0 && t[0] == '+' {
                t.drop_first()
            } else {
                t
            }),
            d.len() > 0,
            forall|m: int| start <= m < i ==> is_digit(#[trigger] s@[m]),
            value == digits_value(s@.subrange(start as int, i as int)),
            value <= u32::MAX,
        decreases hi - i,
    {
        let c = s[i];
        if !('0' <= c && c <= '9') {
            assert(d[i - start] == s@[i as int]);
            assert(!is_digit(d[i - start]));
            return None;
        }
        let dv = (c as u32 - '0' as u32) as u64;
        let next = value * 10 + dv;
        assert(s@.subrange(start as int, i + 1).drop_last() =~= s@.subrange(start as int, i as int));
        if next > 0xffff_ffff {
            proof {
                if all_digits(d) {
                    lemma_digits_value_monotone(d, (i + 1 - start) as int);
                    assert(d.take((i + 1 - start) as int) =~= s@.subrange(start as int, i + 1));
                    assert(digits_value(s@.subrange(start as int, i + 1)) == next);
                    assert(digits_value(d) > u32::MAX);
                }
            }
            return None;
        }
        value = next;
        i = i + 1;
    }
    assert(d =~= s@.subrange(start as int, i as int));
    Some(value as u32)
}

/// Decimal digits of `n`.
pub open spec fn decimal(n: nat) -> Seq<char>
    decreases n,
{
    if n < 10 {
        seq![digit_char(n)]
    } else {
        decimal(n / 10).push(digit_char(n % 10))
    }
}

/// The character of a decimal digit.
pub open spec fn digit_char(d: nat) -> char {
    (d + 48) as char
}

/// Appends the decimal digits of `n`.
pub fn push_decimal(s: &mut String, n: u64)
    ensures
        final(s)@ == old(s)@ + decimal(n as nat),
    decreases n,
{
    if n >= 10 {
        push_decimal(s, n / 10);
    }
    let d = (n % 10) as u8;
    let c = (d + 48) as char;
    proof {
        if n < 10 {
            assert(decimal(n as nat) == seq![digit_char(n as nat)]);
        }
    }
    string_push(s, c);
    proof {
        assert(old(s)@ + decimal(n as nat) =~= if n >= 10 {
            old(s)@ + decimal((n / 10) as nat) + seq![c]
        } else {
            old(s)@ + seq![c]
        });
    }
}

} // verus!
