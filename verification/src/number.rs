//! The text of a decimal number, as `f64`'s `FromStr` accepts it: an
//! optional sign, then `inf`, `infinity`, `nan` or digits with at most one
//! point and an optional exponent, letters in either case.
use vstd::prelude::*;
use crate::text::{ascii_lower, ascii_lower_chars, text_is};

verus! {

pub open spec fn is_digit(c: char) -> bool {
    '0' <= c && c <= '9'
}

pub open spec fn is_sign(c: char) -> bool {
    c == '+' || c == '-'
}

/// One or more digits.
pub open spec fn digits_ok(d: Seq<char>) -> bool {
    d.len() > 0 && forall|i: int| 0 <= i < d.len() ==> is_digit(#[trigger] d[i])
}

/// Digits with at most one point among them, and at least one digit:
/// `12`, `12.`, `.5` or `1.5`.
pub open spec fn mantissa_ok(m: Seq<char>) -> bool {
    &&& forall|i: int| 0 <= i < m.len() ==> is_digit(#[trigger] m[i]) || m[i] == '.'
    &&& forall|i: int, j: int|
        0 <= i < m.len() && 0 <= j < m.len() && #[trigger] m[i] == '.' && #[trigger] m[j] == '.'
            ==> i == j
    &&& exists|i: int| 0 <= i < m.len() && is_digit(#[trigger] m[i])
}

/// What follows the `e` of an exponent: an optional sign and digits.
pub open spec fn exponent_ok(x: Seq<char>) -> bool {
    if x.len() > 0 && is_sign(x[0]) {
        digits_ok(x.drop_first())
    } else {
        digits_ok(x)
    }
}

/// A mantissa, optionally followed by `e` and an exponent (lower case).
pub open spec fn number_ok(u: Seq<char>) -> bool {
    ||| mantissa_ok(u)
    ||| exists|k: int|
        0 <= k < u.len() && #[trigger] u[k] == 'e' && mantissa_ok(u.take(k)) && exponent_ok(
            u.skip(k + 1),
        )
}

/// The part after an optional leading sign.
pub open spec fn unsigned(t: Seq<char>) -> Seq<char> {
    if t.len() > 0 && is_sign(t[0]) {
        t.drop_first()
    } else {
        t
    }
}

/// Whether `s` is the text of a number that `f64::from_str` accepts.
pub open spec fn float_text(s: Seq<char>) -> bool {
    let u = unsigned(ascii_lower(s));
    u == "inf"@ || u == "infinity"@ || u == "nan"@ || number_ok(u)
}

fn digit(c: char) -> (r: bool)
    ensures
        r == is_digit(c),
{
    '0' <= c && c <= '9'
}

/// The characters of `v` from `from` on.
fn tail(v: &Vec<char>, from: usize) -> (r: Vec<char>)
    requires
        from <= v.len(),
    ensures
        r@ == v@.skip(from as int),
{
    let mut r: Vec<char> = Vec::new();
    let mut i: usize = from;
    while i < v.len()
        invariant
            from <= i <= v.len(),
            r@ == v@.subrange(from as int, i as int),
        decreases v.len() - i,
    {
        r.push(v[i]);
        assert(v@.subrange(from as int, i + 1) =~= v@.subrange(from as int, i as int).push(v@[i as int]));
        i = i + 1;
    }
    assert(v@.subrange(from as int, v.len() as int) =~= v@.skip(from as int));
    r
}

/// The first `to` characters of `v`.
fn head(v: &Vec<char>, to: usize) -> (r: Vec<char>)
    requires
        to <= v.len(),
    ensures
        r@ == v@.take(to as int),
{
    let mut r: Vec<char> = Vec::new();
    let mut i: usize = 0;
    while i < to
        invariant
            i <= to <= v.len(),
            r@ == v@.take(i as int),
        decreases to - i,
    {
        r.push(v[i]);
        assert(v@.take(i + 1) =~= v@.take(i as int).push(v@[i as int]));
        i = i + 1;
    }
    r
}

fn digits(d: &Vec<char>) -> (r: bool)
    ensures
        r == digits_ok(d@),
{
    if d.len() == 0 {
        return false;
    }
    let mut i: usize = 0;
    while i < d.len()
        invariant
            i <= d.len(),
            forall|k: int| 0 <= k < i ==> is_digit(#[trigger] d@[k]),
        decreases d.len() - i,
    {
        if !digit(d[i]) {
            return false;
        }
        i = i + 1;
    }
    true
}

fn mantissa(m: &Vec<char>) -> (r: bool)
    ensures
        r == mantissa_ok(m@),
{
    let mut dot: Option<usize> = None;
    let mut some_digit: Option<usize> = None;
    let mut i: usize = 0;
    while i < m.len()
        invariant
            i <= m.len(),
            forall|k: int| 0 <= k < i ==> is_digit(#[trigger] m@[k]) || m@[k] == '.',
            dot matches Some(d) ==> d < i && m@[d as int] == '.' && forall|k: int|
                0 <= k < i && #[trigger] m@[k] == '.' ==> k == d,
            dot is None ==> forall|k: int| 0 <= k < i ==> #[trigger] m@[k] != '.',
            some_digit matches Some(d) ==> d < i && is_digit(m@[d as int]),
            some_digit is None ==> forall|k: int| 0 <= k < i ==> !is_digit(#[trigger] m@[k]),
        decreases m.len() - i,
    {
        let c = m[i];
        if digit(c) {
            some_digit = Some(i);
        } else if c == '.' {
            match dot {
                Some(d) => {
                    assert(m@[d as int] == '.' && m@[i as int] == '.');
                    return false;
                },
                None => {
                    dot = Some(i);
                },
            }
        } else {
            assert(!(is_digit(m@[i as int]) || m@[i as int] == '.'));
            return false;
        }
        i = i + 1;
    }
    match some_digit {
        Some(d) => {
            assert(is_digit(m@[d as int]));
            true
        },
        None => false,
    }
}

fn exponent(x: &Vec<char>) -> (r: bool)
    ensures
        r == exponent_ok(x@),
{
    if x.len() > 0 && (x[0] == '+' || x[0] == '-') {
        let rest = tail(x, 1);
        assert(rest@ =~= x@.drop_first());
        digits(&rest)
    } else {
        digits(x)
    }
}

fn number(u: &Vec<char>) -> (r: bool)
    ensures
        r == number_ok(u@),
{
    let mut k: usize = 0;
    while k < u.len() && u[k] != 'e'
        invariant
            k <= u.len(),
            forall|j: int| 0 <= j < k ==> #[trigger] u@[j] != 'e',
        decreases u.len() - k,
    {
        k = k + 1;
    }
    if k == u.len() {
        assert(u@.take(k as int) =~= u@);
        return mantissa(u);
    }
    assert(u@[k as int] == 'e');
    assert(!mantissa_ok(u@)) by {
        assert(!(is_digit(u@[k as int]) || u@[k as int] == '.'));
    }
    let before = head(u, k);
    let after = tail(u, k + 1);
    let r = mantissa(&before) && exponent(&after);
    assert(r == number_ok(u@)) by {
        if !r {
            assert forall|j: int|
                0 <= j < u@.len() && #[trigger] u@[j] == 'e' implies !(mantissa_ok(u@.take(j))
                && exponent_ok(u@.skip(j + 1))) by {
                if j > k {
                    let t = u@.take(j);
                    assert(t[k as int] == 'e');
                    assert(!(is_digit(t[k as int]) || t[k as int] == '.'));
                } else {
                    assert(j == k);
                }
            }
        }
    }
    r
}

/// Whether `s` is the text of a number: what `f64::from_str` accepts.
pub fn numeric_text(s: &Vec<char>) -> (r: bool)
    ensures
        r == float_text(s@),
{
    let t = ascii_lower_chars(s);
    let u = if t.len() > 0 && (t[0] == '+' || t[0] == '-') {
        let rest = tail(&t, 1);
        assert(rest@ =~= t@.drop_first());
        rest
    } else {
        t
    };
    assert(u@ == unsigned(ascii_lower(s@)));
    text_is(&u, "inf") || text_is(&u, "infinity") || text_is(&u, "nan") || number(&u)
}

} // verus!
