//! The JSON values the game's messages are made of, as plain data, and the
//! numeric readings the protocol needs from them.

use vstd::prelude::*;
use crate::text::{
    all_digits, ascii_lower, ascii_lower_char, chars_of, digits_value, is_digit, parse_i64,
    parse_int_in, same_chars, trim_bounds, trimmed,
};

verus! {

/// A JSON number as the parser reports it: the integer it is, when it is one
/// that fits an `i64`, and its text.
#[derive(Clone, Debug)]
pub struct JsonNumber {
    pub exact: Option<i64>,
    pub text: String,
}

/// A JSON value. Object members keep the order the parser hands them over in.
#[derive(Debug)]
pub enum Json {
    Null,
    Bool(bool),
    Number(JsonNumber),
    Str(String),
    Array(Vec<Json>),
    Object(Vec<(String, Json)>),
}

// ---------------------------------------------------------------------------
// Reading a number's text the way `f64` parsing and `as i64` do
// ---------------------------------------------------------------------------

/// How many digits open `s`.
pub open spec fn digit_run(s: Seq<char>) -> nat
    decreases s.len(),
{
    if s.len() > 0 && is_digit(s[0]) {
        1 + digit_run(s.drop_first())
    } else {
        0
    }
}

pub open spec fn pow10(n: nat) -> nat
    decreases n,
{
    if n == 0 {
        1
    } else {
        10 * pow10((n - 1) as nat)
    }
}

pub open spec fn lower_ascii_text(s: Seq<char>) -> Seq<char> {
    s.map_values(|c: char| ascii_lower(c))
}

/// A sign, when there is one, and what follows it.
pub open spec fn split_sign(s: Seq<char>) -> (bool, Seq<char>) {
    if s.len() > 0 && (s[0] == '+' || s[0] == '-') {
        (s[0] == '-', s.drop_first())
    } else {
        (false, s)
    }
}

/// The pieces of a decimal number: the digits before the point, the digits
/// after it, and what follows them.
pub open spec fn split_mantissa(b: Seq<char>) -> (Seq<char>, Seq<char>, Seq<char>) {
    let i = digit_run(b);
    let int_part = b.take(i as int);
    let r1 = b.skip(i as int);
    if r1.len() > 0 && r1[0] == '.' {
        let r = r1.drop_first();
        let f = digit_run(r);
        (int_part, r.take(f as int), r.skip(f as int))
    } else {
        (int_part, Seq::empty(), r1)
    }
}

/// The exponent part: empty, or `e`/`E`, an optional sign and digits.
pub open spec fn exponent_of(r: Seq<char>) -> Option<int> {
    if r.len() == 0 {
        Some(0)
    } else if r[0] == 'e' || r[0] == 'E' {
        let (neg, d) = split_sign(r.drop_first());
        if d.len() > 0 && all_digits(d) {
            Some(if neg {
                -(digits_value(d) as int)
            } else {
                digits_value(d) as int
            })
        } else {
            None
        }
    } else {
        None
    }
}

/// The size of the whole part of a decimal number with digits `d` and the
/// point `p` digits in.
pub open spec fn whole_part(d: Seq<char>, p: int) -> nat {
    if p <= 0 {
        0
    } else if p <= d.len() {
        digits_value(d.take(p))
    } else {
        digits_value(d) * pow10((p - d.len()) as nat)
    }
}

pub open spec fn clamp_i64(v: int) -> int {
    if v > i64::MAX {
        i64::MAX as int
    } else if v < i64::MIN {
        i64::MIN as int
    } else {
        v
    }
}

/// What parsing `s` as an `f64` and casting the result to `i64` gives, read
/// off the decimal text: the whole part, saturated at the ends of the range,
/// infinities at those ends and NaN as zero. `None` where the text is not a
/// number.
pub open spec fn float_text_to_int(s: Seq<char>) -> Option<int> {
    let (neg, b) = split_sign(s);
    let low = lower_ascii_text(b);
    if low == seq!['i', 'n', 'f'] || low == seq!['i', 'n', 'f', 'i', 'n', 'i', 't', 'y'] {
        Some(if neg {
            i64::MIN as int
        } else {
            i64::MAX as int
        })
    } else if low == seq!['n', 'a', 'n'] {
        Some(0)
    } else {
        let (ip, fp, rest) = split_mantissa(b);
        if ip.len() + fp.len() == 0 {
            None
        } else {
            match exponent_of(rest) {
                Some(e) => {
                    let m = whole_part(ip + fp, ip.len() + e) as int;
                    Some(clamp_i64(
                        if neg {
                            -m
                        } else {
                            m
                        },
                    ))
                },
                None => None,
            }
        }
    }
}

proof fn lemma_digit_run(s: Seq<char>, i: int)
    requires
        0 <= i <= s.len(),
        forall|j: int| 0 <= j < i ==> is_digit(#[trigger] s[j]),
        i == s.len() || !is_digit(s[i]),
    ensures
        digit_run(s) == i,
    decreases i,
{
    if i > 0 {
        lemma_digit_run(s.drop_first(), i - 1);
    }
}

/// Where the run of digits that starts at `from` ends.
fn end_of_digits(v: &[char], from: usize) -> (r: usize)
    requires
        from <= v@.len(),
    ensures
        from <= r <= v@.len(),
        r - from == digit_run(v@.skip(from as int)),
        forall|j: int| from <= j < r ==> is_digit(#[trigger] v@[j]),
{
    let mut i = from;
    while i < v.len() && '0' <= v[i] && v[i] <= '9'
        invariant
            from <= i <= v@.len(),
            forall|j: int| from <= j < i ==> is_digit(#[trigger] v@[j]),
        decreases v@.len() - i,
    {
        i = i + 1;
    }
    proof {
        let t = v@.skip(from as int);
        assert forall|j: int| 0 <= j < i - from implies is_digit(#[trigger] t[j]) by {
            assert(t[j] == v@[j + from]);
        }
        lemma_digit_run(t, i - from);
    }
    i
}

proof fn lemma_pow10_pos(n: nat)
    ensures
        pow10(n) >= 1,
    decreases n,
{
    if n > 0 {
        lemma_pow10_pos((n - 1) as nat);
    }
}

proof fn lemma_digits_take_grows(d: Seq<char>, p: int, q: int)
    requires
        0 <= p <= q <= d.len(),
        all_digits(d),
    ensures
        digits_value(d.take(p)) <= digits_value(d.take(q)),
    decreases q - p,
{
    if p < q {
        lemma_digits_take_grows(d, p, q - 1);
        assert(d.take(q).drop_last() == d.take(q - 1));
    }
}

/// `digits_value` of the first `n` characters, where all of them are digits,
/// stopping early once it passes `cap`.
fn prefix_value(v: &[char], n: usize, cap: u64) -> (r: u64)
    requires
        n <= v@.len(),
        all_digits(v@.take(n as int)),
        cap < u64::MAX,
    ensures
        r == if digits_value(v@.take(n as int)) > cap {
            cap + 1
        } else {
            digits_value(v@.take(n as int)) as int
        },
{
    let mut acc: u64 = 0;
    let mut i: usize = 0;
    while i < n
        invariant
            i <= n <= v@.len(),
            all_digits(v@.take(n as int)),
            cap < u64::MAX,
            acc == digits_value(v@.take(i as int)),
            acc <= cap,
        decreases n - i,
    {
        let c = v[i];
        assert(v@.take(n as int)[i as int] == c);
        let d = (c as u32 - 48) as u128;
        assert(v@.take(i + 1).drop_last() == v@.take(i as int));
        let next: u128 = (acc as u128) * 10 + d;
        if next > cap as u128 {
            proof {
                assert forall|j: int| 0 <= j < n implies is_digit(#[trigger] v@[j]) by {
                    assert(v@.take(n as int)[j] == v@[j]);
                }
                lemma_digits_take_grows(v@.take(n as int), i + 1, n as int);
                assert(v@.take(n as int).take(i + 1) == v@.take(i + 1));
                assert(v@.take(n as int).take(n as int) == v@.take(n as int));
            }
            return cap + 1;
        }
        acc = next as u64;
        i = i + 1;
    }
    acc
}

/// `v[from..]` with ASCII letters lowered.
fn lowered_from(v: &[char], from: usize) -> (low: Vec<char>)
    requires
        from <= v@.len(),
    ensures
        low@ == lower_ascii_text(v@.skip(from as int)),
{
    let mut low: Vec<char> = Vec::new();
    let mut k = from;
    while k < v.len()
        invariant
            from <= k <= v@.len(),
            low@ == lower_ascii_text(v@.subrange(from as int, k as int)),
        decreases v@.len() - k,
    {
        low.push(ascii_lower_char(v[k]));
        k = k + 1;
        assert(lower_ascii_text(v@.subrange(from as int, k as int)) =~= lower_ascii_text(
            v@.subrange(from as int, (k - 1) as int),
        ).push(ascii_lower(v@[k - 1])));
    }
    assert(v@.subrange(from as int, v@.len() as int) == v@.skip(from as int));
    low
}

/// Copies `v[a..b]` onto the end of `out`.
fn append_range(out: &mut Vec<char>, v: &[char], a: usize, b: usize)
    requires
        a <= b <= v@.len(),
    ensures
        final(out)@ == old(out)@ + v@.subrange(a as int, b as int),
{
    let mut j = a;
    while j < b
        invariant
            a <= j <= b <= v@.len(),
            out@ == old(out)@ + v@.subrange(a as int, j as int),
        decreases b - j,
    {
        out.push(v[j]);
        j = j + 1;
        assert(v@.subrange(a as int, j as int) == v@.subrange(a as int, (j - 1) as int).push(
            v@[j - 1],
        ));
    }
}

/// Where the digits before the point, the digits after it and the rest of
/// `v[start..]` begin and end.
fn mantissa_split(v: &[char], start: usize) -> (r: (usize, usize, usize))
    requires
        start <= v@.len(),
    ensures
        start <= r.0 <= r.1 <= r.2 <= v@.len(),
        forall|j: int| start <= j < r.0 ==> is_digit(#[trigger] v@[j]),
        forall|j: int| r.1 <= j < r.2 ==> is_digit(#[trigger] v@[j]),
        split_mantissa(v@.skip(start as int)) == (
            v@.subrange(start as int, r.0 as int),
            v@.subrange(r.1 as int, r.2 as int),
            v@.skip(r.2 as int),
        ),
{
    let i_end = end_of_digits(v, start);
    assert(v@.skip(start as int).take((i_end - start) as int) == v@.subrange(
        start as int,
        i_end as int,
    ));
    assert(v@.skip(start as int).skip((i_end - start) as int) == v@.skip(i_end as int));
    if i_end < v.len() && v[i_end] == '.' {
        let f_start = i_end + 1;
        let f_end = end_of_digits(v, f_start);
        assert(v@.skip(i_end as int).drop_first() == v@.skip(f_start as int));
        assert(v@.skip(f_start as int).take((f_end - f_start) as int) == v@.subrange(
            f_start as int,
            f_end as int,
        ));
        assert(v@.skip(f_start as int).skip((f_end - f_start) as int) == v@.skip(f_end as int));
        (i_end, f_start, f_end)
    } else {
        assert(v@.subrange(i_end as int, i_end as int) =~= Seq::<char>::empty());
        (i_end, i_end, i_end)
    }
}

/// The exponent that `v[at..]` spells, capped at `bound` either way.
fn exponent_read(v: &[char], at: usize, bound: u128) -> (r: Option<i128>)
    requires
        at <= v@.len(),
        bound <= u64::MAX as u128 + 60,
    ensures
        match r {
            Some(x) => -(bound + 1) <= x <= bound + 1 && exponent_of(v@.skip(at as int)) is Some && ({
                let e = exponent_of(v@.skip(at as int)).unwrap();
                x == e || (x == bound + 1 && e > bound) || (x == -(bound + 1) && e < -(
                bound as int))
            }),
            None => exponent_of(v@.skip(at as int)) is None,
        },
{
    let ghost rest = v@.skip(at as int);
    if at == v.len() {
        return Some(0);
    }
    if v[at] != 'e' && v[at] != 'E' {
        return None;
    }
    let mut e_start = at + 1;
    let mut e_neg = false;
    if e_start < v.len() && (v[e_start] == '+' || v[e_start] == '-') {
        e_neg = v[e_start] == '-';
        e_start = e_start + 1;
    }
    let ghost ed = split_sign(rest.drop_first()).1;
    assert(ed == v@.skip(e_start as int));
    if e_start >= v.len() {
        return None;
    }
    let e_end = end_of_digits(v, e_start);
    if e_end < v.len() {
        proof {
            let t = v@.skip(e_start as int);
            lemma_digit_run_stops(t);
            assert(!all_digits(t));
        }
        return None;
    }
    assert(all_digits(ed)) by {
        lemma_digit_run_all(ed);
    }
    let ev = capped_digits(v, e_start, bound);
    if e_neg {
        Some(0 - (ev as i128))
    } else {
        Some(ev as i128)
    }
}

/// `s`, read as an `f64` and cast to `i64`; see `float_text_to_int`.
#[verifier::rlimit(40)]
pub fn float_text_trunc(s: &[char]) -> (r: Option<i64>)
    ensures
        match r {
            Some(x) => float_text_to_int(s@) == Some(x as int),
            None => float_text_to_int(s@) is None,
        },
{
    let neg = s.len() > 0 && s[0] == '-';
    let start: usize = if s.len() > 0 && (s[0] == '+' || s[0] == '-') {
        1
    } else {
        0
    };
    let ghost b = split_sign(s@).1;
    assert(b == s@.skip(start as int));
    let low = lowered_from(s, start);
    let inf = ['i', 'n', 'f'];
    let infinity = ['i', 'n', 'f', 'i', 'n', 'i', 't', 'y'];
    let nan = ['n', 'a', 'n'];
    assert(inf@ == seq!['i', 'n', 'f']);
    assert(infinity@ == seq!['i', 'n', 'f', 'i', 'n', 'i', 't', 'y']);
    assert(nan@ == seq!['n', 'a', 'n']);
    if same_chars(low.as_slice(), inf.as_slice()) || same_chars(
        low.as_slice(),
        infinity.as_slice(),
    ) {
        return Some(
            if neg {
                i64::MIN
            } else {
                i64::MAX
            },
        );
    }
    if same_chars(low.as_slice(), nan.as_slice()) {
        return Some(0);
    }
    let (i_end, f_start, f_end) = mantissa_split(s, start);
    let int_len = i_end - start;
    let frac_len = f_end - f_start;
    if int_len + frac_len == 0 {
        return None;
    }
    let bound: u128 = (s.len() as u128) + 50;
    let exp = match exponent_read(s, f_end, bound) {
        Some(x) => x,
        None => {
            return None;
        },
    };
    let ghost e_true: int = exponent_of(s@.skip(f_end as int)).unwrap();
    let mut d: Vec<char> = Vec::new();
    append_range(&mut d, s, start, i_end);
    append_range(&mut d, s, f_start, f_end);
    proof {
        let ip = s@.subrange(start as int, i_end as int);
        let fp = s@.subrange(f_start as int, f_end as int);
        assert(d@ =~= ip + fp);
        assert forall|j: int| 0 <= j < d@.len() implies is_digit(#[trigger] d@[j]) by {
            if j < ip.len() {
                assert(d@[j] == s@[start + j]);
            } else {
                assert(d@[j] == s@[f_start + j - ip.len()]);
            }
        }
        assert(s@.len() >= d@.len());
    }
    let m = whole_of(d.as_slice(), int_len, exp, Ghost(e_true));
    let cap: u64 = 0x8000_0000_0000_0000;
    let out: i64 = if neg {
        if m >= cap {
            i64::MIN
        } else {
            0 - (m as i64)
        }
    } else {
        if m >= cap {
            i64::MAX
        } else {
            m as i64
        }
    };
    Some(out)
}

/// `digits_value(v[from..])`, where all of those are digits, or `cap + 1` once
/// it passes `cap`.
fn capped_digits(v: &[char], from: usize, cap: u128) -> (r: u128)
    requires
        from <= v@.len(),
        all_digits(v@.skip(from as int)),
        cap <= u64::MAX as u128 + 100,
    ensures
        r == if digits_value(v@.skip(from as int)) > cap {
            cap + 1
        } else {
            digits_value(v@.skip(from as int)) as int
        },
{
    let mut acc: u128 = 0;
    let mut i: usize = from;
    while i < v.len()
        invariant
            from <= i <= v@.len(),
            all_digits(v@.skip(from as int)),
            cap <= u64::MAX as u128 + 100,
            acc == digits_value(v@.subrange(from as int, i as int)),
            acc <= cap,
        decreases v@.len() - i,
    {
        let c = v[i];
        assert(v@.skip(from as int)[i - from] == c);
        let d = (c as u32 - 48) as u128;
        assert(v@.subrange(from as int, i + 1).drop_last() == v@.subrange(from as int, i as int));
        let next = acc * 10 + d;
        if next > cap {
            proof {
                let t = v@.skip(from as int);
                assert(t.take(i + 1 - from) == v@.subrange(from as int, i + 1));
                assert(t.take(t.len() as int) == t);
                lemma_digits_take_grows(t, i + 1 - from, t.len() as int);
            }
            return cap + 1;
        }
        acc = next;
        i = i + 1;
    }
    assert(v@.subrange(from as int, v@.len() as int) == v@.skip(from as int));
    acc
}

proof fn lemma_pow10_grows(a: nat, b: nat)
    requires
        a <= b,
    ensures
        pow10(a) <= pow10(b),
    decreases b,
{
    if a < b {
        lemma_pow10_grows(a, (b - 1) as nat);
        lemma_pow10_pos((b - 1) as nat);
    }
}

proof fn lemma_pow10_big(n: nat)
    requires
        n >= 19,
    ensures
        pow10(n) >= 0x8000_0000_0000_0000,
{
    reveal_with_fuel(pow10, 20);
    assert(pow10(19) == 10_000_000_000_000_000_000);
    lemma_pow10_grows(19, n);
}

/// The whole part of the number whose digits are `d` with the point `int_len`
/// digits in, moved `exp` places; saturated at 2^63. `exp` may stand for an
/// exponent `e` too large or too small to matter, in the same direction.
fn whole_of(d: &[char], int_len: usize, exp: i128, Ghost(e): Ghost<int>) -> (m: u64)
    requires
        all_digits(d@),
        int_len <= d@.len(),
        d@.len() > 0,
        exp == e || (exp > d@.len() + 40 && e >= exp) || (exp < -(d@.len() + 40) && e <= exp),
        -(u64::MAX as int + 300) <= exp <= u64::MAX as int + 300,
    ensures
        m == if whole_part(d@, int_len + e) >= 0x8000_0000_0000_0000 {
            0x8000_0000_0000_0000
        } else {
            whole_part(d@, int_len + e) as int
        },
{
    let cap: u64 = 0x8000_0000_0000_0000;
    let p: i128 = int_len as i128 + exp;
    let ghost pt: int = int_len + e;
    if p <= 0 {
        assert(pt <= 0);
        return 0;
    }
    if p <= d.len() as i128 {
        assert(pt == p);
        let v = prefix_value(d, p as usize, cap - 1);
        return v;
    }
    assert(d@.take(d@.len() as int) == d@);
    let mut v = prefix_value(d, d.len(), cap - 1);
    if v == 0 {
        proof {
            assert(pt > d@.len());
            assert(digits_value(d@) == 0);
            assert(whole_part(d@, pt) == digits_value(d@) * pow10((pt - d@.len()) as nat));
            assert(0 * pow10((pt - d@.len()) as nat) == 0);
        }
        return 0;
    }
    proof {
        assert(pow10(0) == 1);
        assert(digits_value(d@) * pow10(0) == digits_value(d@));
    }
    let steps: i128 = p - d.len() as i128;
    let mut k: i128 = 0;
    while k < steps && v < cap
        invariant
            0 <= k <= steps,
            steps == p - d@.len(),
            1 <= v <= cap,
            v < cap ==> v == digits_value(d@) * pow10(k as nat),
            v == cap ==> digits_value(d@) * pow10(k as nat) >= cap,
        decreases steps - k,
    {
        let w: u128 = (v as u128) * 10;
        proof {
            let dv = digits_value(d@);
            let pk = pow10(k as nat);
            assert(pow10((k + 1) as nat) == 10 * pk);
            assert(dv * (10 * pk) == 10 * (dv * pk)) by (nonlinear_arith);
        }
        if w >= cap as u128 {
            v = cap;
        } else {
            v = w as u64;
        }
        k = k + 1;
    }
    proof {
        let dv = digits_value(d@);
        if v == cap {
            lemma_pow10_grows(k as nat, (pt - d@.len()) as nat);
            assert(dv * pow10(k as nat) <= dv * pow10((pt - d@.len()) as nat)) by (nonlinear_arith)
                requires
                    pow10(k as nat) <= pow10((pt - d@.len()) as nat),
            ;
        } else {
            assert(k == steps);
            if exp != e {
                lemma_pow10_big(k as nat);
                assert(dv * pow10(k as nat) >= pow10(k as nat)) by (nonlinear_arith)
                    requires
                        dv >= 1,
                ;
            }
        }
    }
    v
}

proof fn lemma_digit_run_stops(t: Seq<char>)
    ensures
        digit_run(t) <= t.len(),
        digit_run(t) < t.len() ==> !is_digit(t[digit_run(t) as int]),
        forall|j: int| 0 <= j < digit_run(t) ==> is_digit(#[trigger] t[j]),
    decreases t.len(),
{
    if t.len() > 0 && is_digit(t[0]) {
        lemma_digit_run_stops(t.drop_first());
        assert forall|j: int| 0 <= j < digit_run(t) implies is_digit(#[trigger] t[j]) by {
            if j > 0 {
                assert(t[j] == t.drop_first()[j - 1]);
            }
        }
    }
}

proof fn lemma_digit_run_all(t: Seq<char>)
    requires
        digit_run(t) == t.len(),
    ensures
        all_digits(t),
{
    lemma_digit_run_stops(t);
}

// ---------------------------------------------------------------------------
// Numeric readings
// ---------------------------------------------------------------------------

/// What a number-or-text field reads as: an integer as it stands, a float
/// with its fraction dropped, or text that spells either.
pub open spec fn int_reading(v: Json) -> Option<int> {
    match v {
        Json::Number(n) => match n.exact {
            Some(x) => Some(x as int),
            None => float_text_to_int(n.text@),
        },
        Json::Str(s) => {
            let t = trimmed(s@);
            match parse_int_in(t, true, i64::MIN as int, i64::MAX as int) {
                Some(x) => Some(x),
                None => float_text_to_int(t),
            }
        },
        _ => None,
    }
}

/// The protocol writes whole numbers as floats ("d": 5.0), so every numeric
/// read accepts both spellings, and text that holds either.
pub fn as_int(v: &Json) -> (r: Option<i64>)
    ensures
        match r {
            Some(x) => int_reading(*v) == Some(x as int),
            None => int_reading(*v) is None,
        },
{
    match v {
        Json::Number(n) => match n.exact {
            Some(x) => Some(x),
            None => {
                let t = chars_of(n.text.as_str());
                float_text_trunc(t.as_slice())
            },
        },
        Json::Str(s) => {
            let all = chars_of(s.as_str());
            let (a, b) = trim_bounds(all.as_slice());
            let mut t: Vec<char> = Vec::new();
            append_range(&mut t, all.as_slice(), a, b);
            assert(t@ == trimmed(s@));
            match parse_i64(t.as_slice()) {
                Some(x) => Some(x),
                None => float_text_trunc(t.as_slice()),
            }
        },
        _ => None,
    }
}

pub open spec fn flag_reading(v: Option<Json>) -> bool {
    match v {
        Some(Json::Bool(b)) => b,
        Some(other) => int_reading(other) == Some(1int),
        None => false,
    }
}

/// A flag the game may send as a boolean or as a number.
pub fn as_bool(v: Option<&Json>) -> (r: bool)
    ensures
        r == flag_reading(match v {
            Some(x) => Some(*x),
            None => None,
        }),
{
    match v {
        Some(Json::Bool(b)) => *b,
        Some(other) => match as_int(other) {
            Some(x) => x == 1,
            None => false,
        },
        None => false,
    }
}

} // verus!
