//! Normalisation of a displayed price into an exact decimal.

use vstd::prelude::*;
use crate::text::{is_white_space, chars_of, white_space};

verus! {

/// A decimal number: `mantissa / 10^scale`, negated when `negative`.
/// `scale` is the number of digits that followed the decimal point.
#[derive(Clone, Copy, Debug, PartialEq, Eq, Structural)]
pub struct Price {
    pub negative: bool,
    pub mantissa: u64,
    pub scale: usize,
}

/// Every occurrence of the currency code `CHF` and every thousands
/// apostrophe is dropped, and every decimal comma becomes a point.
pub open spec fn cleaned(s: Seq<char>) -> Seq<char>
    decreases s.len(),
{
    if s.len() == 0 {
        s
    } else if s.len() >= 3 && s[0] == 'C' && s[1] == 'H' && s[2] == 'F' {
        cleaned(s.subrange(3, s.len() as int))
    } else if s[0] == '\'' {
        cleaned(s.drop_first())
    } else if s[0] == ',' {
        seq!['.'] + cleaned(s.drop_first())
    } else {
        seq![s[0]] + cleaned(s.drop_first())
    }
}

pub open spec fn trim_start(s: Seq<char>) -> Seq<char>
    decreases s.len(),
{
    if s.len() > 0 && is_white_space(s[0]) {
        trim_start(s.drop_first())
    } else {
        s
    }
}

pub open spec fn trim_end(s: Seq<char>) -> Seq<char>
    decreases s.len(),
{
    if s.len() > 0 && is_white_space(s.last()) {
        trim_end(s.drop_last())
    } else {
        s
    }
}

pub open spec fn is_digit(c: char) -> bool {
    '0' <= c && c <= '9'
}

/// The number that the digits of `s` spell, read in order, other characters skipped.
pub open spec fn digits_value(s: Seq<char>) -> nat
    decreases s.len(),
{
    if s.len() == 0 {
        0
    } else if is_digit(s.last()) {
        digits_value(s.drop_last()) * 10 + ((s.last() as u32) - ('0' as u32)) as nat
    } else {
        digits_value(s.drop_last())
    }
}

/// Digits with at most one decimal point, and at least one digit.
pub open spec fn is_plain_decimal(b: Seq<char>) -> bool {
    &&& forall|i: int| 0 <= i < b.len() ==> is_digit(#[trigger] b[i]) || b[i] == '.'
    &&& forall|i: int, j: int|
        0 <= i < b.len() && 0 <= j < b.len() && #[trigger] b[i] == '.' && #[trigger] b[j] == '.'
            ==> i == j
    &&& exists|i: int| 0 <= i < b.len() && is_digit(#[trigger] b[i])
}

/// How many characters follow the decimal point (none without a point).
pub open spec fn fraction_len(b: Seq<char>) -> nat {
    if exists|k: int| 0 <= k < b.len() && #[trigger] b[k] == '.' {
        let k = choose|k: int| 0 <= k < b.len() && #[trigger] b[k] == '.';
        (b.len() - 1 - k) as nat
    } else {
        0
    }
}

pub open spec fn has_sign(t: Seq<char>) -> bool {
    t.len() > 0 && (t[0] == '-' || t[0] == '+')
}

/// The price that `s` displays, if its cleaned and trimmed text is a plain
/// decimal with an optional sign whose digits fit in a `u64`.
pub open spec fn price_of(s: Seq<char>) -> Option<Price> {
    let t = trim_end(trim_start(cleaned(s)));
    let body = if has_sign(t) {
        t.drop_first()
    } else {
        t
    };
    if is_plain_decimal(body) && digits_value(body) <= u64::MAX {
        Some(
            Price {
                negative: t.len() > 0 && t[0] == '-',
                mantissa: digits_value(body) as u64,
                scale: fraction_len(body) as usize,
            },
        )
    } else {
        None
    }
}

pub open spec fn parse_spec(raw: Option<Seq<char>>) -> Option<Price> {
    match raw {
        Some(s) => price_of(s),
        None => None,
    }
}

fn clean_chars(s: &Vec<char>) -> (r: Vec<char>)
    ensures
        r@ == cleaned(s@),
{
    let n = s.len();
    let mut out: Vec<char> = Vec::new();
    let mut i: usize = 0;
    assert(s@.subrange(0, n as int) =~= s@);
    assert(out@ + cleaned(s@) =~= cleaned(s@));
    while i < n
        invariant
            n == s@.len(),
            i <= n,
            out@ + cleaned(s@.subrange(i as int, n as int)) == cleaned(s@),
        decreases n - i,
    {
        let ghost rest = s@.subrange(i as int, n as int);
        if n - i >= 3 && s[i] == 'C' && s[i + 1] == 'H' && s[i + 2] == 'F' {
            assert(rest.subrange(3, rest.len() as int) =~= s@.subrange(i + 3, n as int));
            i += 3;
        } else {
            let c = s[i];
            assert(rest.drop_first() =~= s@.subrange(i + 1, n as int));
            if c == '\'' {
            } else if c == ',' {
                out.push('.');
                assert(out@ + cleaned(rest.drop_first()) =~= out@.drop_last() + (seq!['.']
                    + cleaned(rest.drop_first())));
            } else {
                out.push(c);
                assert(out@ + cleaned(rest.drop_first()) =~= out@.drop_last() + (seq![c]
                    + cleaned(rest.drop_first())));
            }
            i += 1;
        }
    }
    assert(s@.subrange(n as int, n as int) =~= Seq::<char>::empty());
    assert(out@ + Seq::<char>::empty() =~= out@);
    out
}

fn slice(v: &Vec<char>, a: usize, b: usize) -> (r: Vec<char>)
    requires
        a <= b <= v.len(),
    ensures
        r@ == v@.subrange(a as int, b as int),
{
    let mut out: Vec<char> = Vec::new();
    let mut i: usize = a;
    while i < b
        invariant
            a <= i <= b <= v.len(),
            out@ == v@.subrange(a as int, i as int),
        decreases b - i,
    {
        out.push(v[i]);
        i += 1;
        assert(out@ =~= v@.subrange(a as int, i as int));
    }
    out
}

/// `s` without white space at either end.
fn trim_chars(s: &Vec<char>) -> (r: Vec<char>)
    ensures
        r@ == trim_end(trim_start(s@)),
{
    let n = s.len();
    let mut a: usize = 0;
    assert(s@.subrange(0, n as int) =~= s@);
    while a < n && white_space(s[a])
        invariant
            n == s@.len(),
            a <= n,
            trim_start(s@.subrange(a as int, n as int)) == trim_start(s@),
        decreases n - a,
    {
        assert(s@.subrange(a as int, n as int).drop_first() =~= s@.subrange(a + 1, n as int));
        a += 1;
    }
    let ghost t = s@.subrange(a as int, n as int);
    assert(trim_start(t) == t);
    let mut b: usize = n;
    while b > a && white_space(s[b - 1])
        invariant
            a <= b <= n,
            n == s@.len(),
            t == s@.subrange(a as int, n as int),
            trim_end(s@.subrange(a as int, b as int)) == trim_end(t),
        decreases b,
    {
        assert(s@.subrange(a as int, b as int).drop_last() =~= s@.subrange(a as int, b - 1));
        b -= 1;
    }
    let r = slice(s, a, b);
    assert(trim_end(r@) == r@);
    r
}

proof fn lemma_digits_step(b: Seq<char>, i: int)
    requires
        0 <= i < b.len(),
    ensures
        b.take(i + 1).drop_last() == b.take(i),
        b.take(i + 1).last() == b[i],
{
    assert(b.take(i + 1).drop_last() =~= b.take(i));
}

/// The price in a plain decimal `body`, which is `negative` when its sign said so.
fn decimal_of(body: &Vec<char>, negative: bool) -> (r: Option<Price>)
    ensures
        r == (if is_plain_decimal(body@) && digits_value(body@) <= u64::MAX {
            Some(
                Price {
                    negative,
                    mantissa: digits_value(body@) as u64,
                    scale: fraction_len(body@) as usize,
                },
            )
        } else {
            None
        }),
{
    let n = body.len();
    let mut dot: Option<usize> = None;
    let mut any_digit = false;
    let mut overflow = false;
    let mut m: u64 = 0;
    let mut i: usize = 0;
    while i < n
        invariant
            n == body@.len(),
            i <= n,
            forall|k: int| 0 <= k < i ==> is_digit(#[trigger] body@[k]) || body@[k] == '.',
            dot is None ==> forall|k: int| 0 <= k < i ==> #[trigger] body@[k] != '.',
            dot matches Some(d) ==> d < i && body@[d as int] == '.' && forall|k: int|
                0 <= k < i && k != d ==> #[trigger] body@[k] != '.',
            any_digit == exists|k: int| 0 <= k < i && is_digit(#[trigger] body@[k]),
            !overflow ==> m == digits_value(body@.take(i as int)),
            overflow ==> digits_value(body@.take(i as int)) > u64::MAX,
        decreases n - i,
    {
        let c = body[i];
        proof {
            lemma_digits_step(body@, i as int);
        }
        if '0' <= c && c <= '9' {
            let d = (c as u32 - '0' as u32) as u64;
            if !overflow {
                if m > (u64::MAX - d) / 10 {
                    overflow = true;
                } else {
                    m = m * 10 + d;
                }
            }
            any_digit = true;
        } else if c == '.' {
            if dot.is_some() {
                assert(!is_plain_decimal(body@)) by {
                    let d = dot.unwrap();
                    assert(body@[d as int] == '.' && body@[i as int] == '.');
                }
                return None;
            }
            dot = Some(i);
        } else {
            assert(!is_plain_decimal(body@)) by {
                assert(!(is_digit(body@[i as int]) || body@[i as int] == '.'));
            }
            return None;
        }
        i += 1;
    }
    assert(body@.take(n as int) =~= body@);
    if !any_digit || overflow {
        return None;
    }
    let scale: usize = match dot {
        None => 0,
        Some(d) => {
            assert(fraction_len(body@) == n - 1 - d) by {
                let k = choose|k: int| 0 <= k < body@.len() && #[trigger] body@[k] == '.';
                assert(body@[k] == '.');
            }
            n - 1 - d
        },
    };
    Some(Price { negative, mantissa: m, scale })
}

/// Reads a displayed price such as `CHF 1'234,50` or `12,99`: the currency
/// code and thousands apostrophes are dropped, a comma is the decimal point,
/// white space around the number is ignored. Anything else gives `None`.
pub fn parse_price(raw: Option<&str>) -> (r: Option<Price>)
    ensures
        r == parse_spec(
            match raw {
                Some(s) => Some(s@),
                None => None,
            },
        ),
{
    match raw {
        None => None,
        Some(s) => {
            let cs = chars_of(s);
            let c = clean_chars(&cs);
            let t = trim_chars(&c);
            if t.len() > 0 && (t[0] == '-' || t[0] == '+') {
                let body = slice(&t, 1, t.len());
                assert(body@ =~= t@.drop_first());
                decimal_of(&body, t[0] == '-')
            } else {
                decimal_of(&t, false)
            }
        },
    }
}

} // verus!
