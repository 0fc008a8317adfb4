//! Numeric tokens: unsigned decimal integers and floating-point literals.
//!
//! Integers are decoded exactly. A floating-point literal is recognised by
//! the grammar that std documents for decoding a float from text; the value
//! itself stays as written, since only a renderer ever needs it as a float.

use vstd::prelude::*;

verus! {

pub open spec fn is_digit(c: char) -> bool {
    '0' <= c && c <= '9'
}

pub open spec fn all_digits(s: Seq<char>) -> bool {
    forall|i: int| 0 <= i < s.len() ==> is_digit(#[trigger] s[i])
}

pub open spec fn digit_value(c: char) -> nat {
    (c as u32 - '0' as u32) as nat
}

/// The value of a run of decimal digits, most significant first.
pub open spec fn decimal_value(s: Seq<char>) -> nat
    decreases s.len(),
{
    if s.len() == 0 {
        0
    } else {
        decimal_value(s.drop_last()) * 10 + digit_value(s.last())
    }
}

/// What std's decoding of a `u32` yields: an optional `+`, then one or more
/// digits whose value fits.
pub open spec fn u32_of(s: Seq<char>) -> Option<u32> {
    let d = if s.len() > 0 && s[0] == '+' {
        s.drop_first()
    } else {
        s
    };
    if d.len() > 0 && all_digits(d) && decimal_value(d) <= u32::MAX {
        Some(decimal_value(d) as u32)
    } else {
        None
    }
}

proof fn lemma_decimal_prefix_le(s: Seq<char>, k: int)
    requires
        0 <= k <= s.len(),
        all_digits(s),
    ensures
        decimal_value(s.take(k)) <= decimal_value(s),
    decreases s.len(),
{
    if k < s.len() {
        let d = s.drop_last();
        assert(d.take(k) =~= s.take(k));
        lemma_decimal_prefix_le(d, k);
    } else {
        assert(s.take(k) =~= s);
    }
}

/// Whether `t[lo..hi]` is made of decimal digits only.
pub fn digits_only(t: &Vec<char>, lo: usize, hi: usize) -> (r: bool)
    requires
        lo <= hi <= t@.len(),
    ensures
        r == all_digits(t@.subrange(lo as int, hi as int)),
{
    let mut i = lo;
    while i < hi
        invariant
            lo <= i <= hi <= t@.len(),
            all_digits(t@.subrange(lo as int, i as int)),
        decreases hi - i,
    {
        if !('0' <= t[i] && t[i] <= '9') {
            assert(t@.subrange(lo as int, hi as int)[i - lo] == t@[i as int]);
            return false;
        }
        assert(t@.subrange(lo as int, i + 1) =~= t@.subrange(lo as int, i as int).push(t@[i as int]));
        i = i + 1;
    }
    true
}

/// Decodes `t[lo..hi]` as std decodes a `u32`.
pub fn decode_u32(t: &Vec<char>, lo: usize, hi: usize) -> (r: Option<u32>)
    requires
        lo <= hi <= t@.len(),
    ensures
        r == u32_of(t@.subrange(lo as int, hi as int)),
{
    let ghost s = t@.subrange(lo as int, hi as int);
    let start: usize = if lo < hi && t[lo] == '+' { lo + 1 } else { lo };
    let ghost d = t@.subrange(start as int, hi as int);
    assert(d =~= (if s.len() > 0 && s[0] == '+' { s.drop_first() } else { s }));
    if start == hi || !digits_only(t, start, hi) {
        return None;
    }
    let mut v: u32 = 0;
    let mut i = start;
    while i < hi
        invariant
            lo <= start <= i <= hi <= t@.len(),
            s == t@.subrange(lo as int, hi as int),
            d == t@.subrange(start as int, hi as int),
            d.len() > 0,
            d == (if s.len() > 0 && s[0] == '+' { s.drop_first() } else { s }),
            all_digits(d),
            v == decimal_value(t@.subrange(start as int, i as int)),
        decreases hi - i,
    {
        let ghost p = t@.subrange(start as int, i + 1);
        assert(p.drop_last() =~= t@.subrange(start as int, i as int));
        assert(d[i - start] == t@[i as int]);
        let c = t[i];
        let dv: u32 = (c as u32) - ('0' as u32);
        if v > (u32::MAX - dv) / 10 {
            proof {
                assert(decimal_value(p) == v * 10 + dv);
                assert(v * 10 + dv > u32::MAX) by (nonlinear_arith)
                    requires
                        v > (u32::MAX - dv) / 10,
                        dv <= 9,
                ;
                assert(p =~= d.take(i + 1 - start));
                lemma_decimal_prefix_le(d, i + 1 - start);
            }
            return None;
        }
        v = v * 10 + dv;
        i = i + 1;
    }
    assert(t@.subrange(start as int, i as int) =~= d);
    Some(v)
}

pub open spec fn is_sign(c: char) -> bool {
    c == '+' || c == '-'
}

pub open spec fn is_exponent_mark(c: char) -> bool {
    c == 'e' || c == 'E'
}

/// `Digit+`, `Digit+ '.' Digit*` or `Digit* '.' Digit+`.
pub open spec fn is_mantissa(m: Seq<char>) -> bool {
    ||| m.len() > 0 && all_digits(m)
    ||| exists|p: int|
        0 <= p < m.len() && #[trigger] m[p] == '.' && m.len() >= 2 && all_digits(m.take(p))
            && all_digits(m.skip(p + 1))
}

/// `Sign? Digit+`.
pub open spec fn is_exponent(e: Seq<char>) -> bool {
    ||| e.len() > 0 && all_digits(e)
    ||| e.len() > 1 && is_sign(e[0]) && all_digits(e.drop_first())
}

/// A mantissa, optionally followed by an exponent mark and an exponent.
pub open spec fn is_number(n: Seq<char>) -> bool {
    ||| is_mantissa(n)
    ||| exists|p: int|
        0 <= p < n.len() && is_exponent_mark(#[trigger] n[p]) && is_mantissa(n.take(p))
            && is_exponent(n.skip(p + 1))
}

/// `s` spells the lower-case ASCII word `w`, ignoring case.
pub open spec fn spells(s: Seq<char>, w: Seq<char>) -> bool {
    s.len() == w.len() && forall|i: int|
        0 <= i < s.len() ==> #[trigger] s[i] == w[i] || s[i] as u32 + 32 == w[i] as u32
}

pub open spec fn is_unsigned_float(b: Seq<char>) -> bool {
    ||| is_number(b)
    ||| spells(b, seq!['i', 'n', 'f'])
    ||| spells(b, seq!['i', 'n', 'f', 'i', 'n', 'i', 't', 'y'])
    ||| spells(b, seq!['n', 'a', 'n'])
}

/// The literals that std decodes as a float: an optional sign, then `inf`,
/// `infinity`, `nan` (in any case) or a decimal number with an optional
/// exponent.
pub open spec fn is_float_literal(s: Seq<char>) -> bool {
    ||| is_unsigned_float(s)
    ||| s.len() > 0 && is_sign(s[0]) && is_unsigned_float(s.drop_first())
}

/// The first position in `t[lo..hi]` that holds `a` or `b`, or `hi`.
fn find_either(t: &Vec<char>, lo: usize, hi: usize, a: char, b: char) -> (r: usize)
    requires
        lo <= hi <= t@.len(),
    ensures
        lo <= r <= hi,
        forall|k: int| lo <= k < r ==> t@[k] != a && t@[k] != b,
        r < hi ==> (t@[r as int] == a || t@[r as int] == b),
{
    let mut i = lo;
    while i < hi
        invariant
            lo <= i <= hi <= t@.len(),
            forall|k: int| lo <= k < i ==> t@[k] != a && t@[k] != b,
        decreases hi - i,
    {
        if t[i] == a || t[i] == b {
            return i;
        }
        i = i + 1;
    }
    i
}

proof fn lemma_mantissa_chars(m: Seq<char>)
    requires
        is_mantissa(m),
    ensures
        forall|i: int| 0 <= i < m.len() ==> is_digit(#[trigger] m[i]) || m[i] == '.',
{
    if !(m.len() > 0 && all_digits(m)) {
        let p = choose|p: int|
            0 <= p < m.len() && #[trigger] m[p] == '.' && m.len() >= 2 && all_digits(m.take(p))
                && all_digits(m.skip(p + 1));
        assert forall|i: int| 0 <= i < m.len() implies is_digit(#[trigger] m[i]) || m[i] == '.' by {
            if i < p {
                assert(m.take(p)[i] == m[i]);
            } else if i > p {
                assert(m.skip(p + 1)[i - p - 1] == m[i]);
            }
        }
    }
}

fn mantissa_at(t: &Vec<char>, lo: usize, hi: usize) -> (r: bool)
    requires
        lo <= hi <= t@.len(),
    ensures
        r == is_mantissa(t@.subrange(lo as int, hi as int)),
{
    let ghost m = t@.subrange(lo as int, hi as int);
    let p = find_either(t, lo, hi, '.', '.');
    if p == hi {
        let r = lo < hi && digits_only(t, lo, hi);
        proof {
            if exists|q: int|
                0 <= q < m.len() && #[trigger] m[q] == '.' && m.len() >= 2 && all_digits(m.take(q))
                    && all_digits(m.skip(q + 1)) {
                let q = choose|q: int|
                    0 <= q < m.len() && #[trigger] m[q] == '.' && m.len() >= 2 && all_digits(
                        m.take(q),
                    ) && all_digits(m.skip(q + 1));
                assert(t@[lo + q] == '.');
            }
        }
        r
    } else {
        let r = hi - lo >= 2 && digits_only(t, lo, p) && digits_only(t, p + 1, hi);
        proof {
            let k = p - lo;
            assert(m[k] == '.');
            assert(m.take(k) =~= t@.subrange(lo as int, p as int));
            assert(m.skip(k + 1) =~= t@.subrange(p + 1, hi as int));
            assert(!all_digits(m));
            if !r {
                assert forall|q: int|
                    0 <= q < m.len() && #[trigger] m[q] == '.' implies !(m.len() >= 2 && all_digits(
                    m.take(q)) && all_digits(m.skip(q + 1))) by {
                    if q > k {
                        assert(m.take(q)[k] == '.');
                    } else if q < k {
                        assert(t@[lo + q] == '.');
                    }
                }
            }
        }
        r
    }
}

fn exponent_at(t: &Vec<char>, lo: usize, hi: usize) -> (r: bool)
    requires
        lo <= hi <= t@.len(),
    ensures
        r == is_exponent(t@.subrange(lo as int, hi as int)),
{
    let ghost e = t@.subrange(lo as int, hi as int);
    if lo < hi && (t[lo] == '+' || t[lo] == '-') {
        assert(e.drop_first() =~= t@.subrange(lo + 1, hi as int));
        assert(!all_digits(e) || e.len() == 0) by {
            if e.len() > 0 {
                assert(e[0] == t@[lo as int]);
            }
        }
        hi - lo > 1 && digits_only(t, lo + 1, hi)
    } else {
        lo < hi && digits_only(t, lo, hi)
    }
}

fn number_at(t: &Vec<char>, lo: usize, hi: usize) -> (r: bool)
    requires
        lo <= hi <= t@.len(),
    ensures
        r == is_number(t@.subrange(lo as int, hi as int)),
{
    let ghost n = t@.subrange(lo as int, hi as int);
    let q = find_either(t, lo, hi, 'e', 'E');
    if q == hi {
        let r = mantissa_at(t, lo, hi);
        proof {
            assert forall|p: int| 0 <= p < n.len() implies !is_exponent_mark(#[trigger] n[p]) by {
                assert(n[p] == t@[lo + p]);
            }
        }
        r
    } else {
        let r = mantissa_at(t, lo, q) && exponent_at(t, q + 1, hi);
        proof {
            let k = q - lo;
            assert(is_exponent_mark(n[k]));
            assert(n.take(k) =~= t@.subrange(lo as int, q as int));
            assert(n.skip(k + 1) =~= t@.subrange(q + 1, hi as int));
            if is_mantissa(n) {
                lemma_mantissa_chars(n);
            }
            if !r {
                assert forall|p: int|
                    0 <= p < n.len() && is_exponent_mark(#[trigger] n[p]) implies !(is_mantissa(
                    n.take(p)) && is_exponent(n.skip(p + 1))) by {
                    if p > k && is_mantissa(n.take(p)) {
                        lemma_mantissa_chars(n.take(p));
                        assert(n.take(p)[k] == n[k]);
                    } else if p < k {
                        assert(n[p] == t@[lo + p]);
                    }
                }
            }
        }
        r
    }
}

fn spells_at(t: &Vec<char>, lo: usize, hi: usize, w: &Vec<char>) -> (r: bool)
    requires
        lo <= hi <= t@.len(),
    ensures
        r == spells(t@.subrange(lo as int, hi as int), w@),
{
    let ghost s = t@.subrange(lo as int, hi as int);
    if hi - lo != w.len() {
        return false;
    }
    let mut i: usize = 0;
    while i < w.len()
        invariant
            hi - lo == w@.len(),
            lo <= hi <= t@.len(),
            s == t@.subrange(lo as int, hi as int),
            forall|j: int| 0 <= j < i ==> #[trigger] s[j] == w@[j] || s[j] as u32 + 32 == w@[j] as u32,
        decreases w.len() - i,
    {
        let c = t[lo + i];
        assert(s[i as int] == c);
        let l = w[i];
        if !(c == l || (l as u32 >= 32 && c as u32 == l as u32 - 32)) {
            return false;
        }
        i = i + 1;
    }
    true
}

fn unsigned_float_at(t: &Vec<char>, lo: usize, hi: usize) -> (r: bool)
    requires
        lo <= hi <= t@.len(),
    ensures
        r == is_unsigned_float(t@.subrange(lo as int, hi as int)),
{
    let inf = vec!['i', 'n', 'f'];
    let infinity = vec!['i', 'n', 'f', 'i', 'n', 'i', 't', 'y'];
    let nan = vec!['n', 'a', 'n'];
    assert(inf@ =~= seq!['i', 'n', 'f']);
    assert(infinity@ =~= seq!['i', 'n', 'f', 'i', 'n', 'i', 't', 'y']);
    assert(nan@ =~= seq!['n', 'a', 'n']);
    number_at(t, lo, hi) || spells_at(t, lo, hi, &inf) || spells_at(t, lo, hi, &infinity)
        || spells_at(t, lo, hi, &nan)
}

/// Whether `t[lo..hi]` is a literal that std decodes as a float.
pub fn float_literal_at(t: &Vec<char>, lo: usize, hi: usize) -> (r: bool)
    requires
        lo <= hi <= t@.len(),
    ensures
        r == is_float_literal(t@.subrange(lo as int, hi as int)),
{
    let ghost s = t@.subrange(lo as int, hi as int);
    if unsigned_float_at(t, lo, hi) {
        return true;
    }
    if lo < hi && (t[lo] == '+' || t[lo] == '-') {
        assert(s.drop_first() =~= t@.subrange(lo + 1, hi as int));
        unsigned_float_at(t, lo + 1, hi)
    } else {
        false
    }
}

} // verus!
