//! Signed fixed-point decimal numbers with micro-unit (10^-6) resolution.
//!
//! Scores, relevance values and adjustments travel through this layer as
//! decimal text ("0.5", "-0.2"); this module gives them an exact integer
//! model: a sign and a count of micro-units.  A numeric token is an optional
//! sign, decimal digits and at most one point; fractional digits beyond the
//! sixth are truncated, and tokens with more than twelve significant integer
//! digits are rejected so that every accepted value fits the representation.

use vstd::prelude::*;

verus! {

/// Number of micro-units in 1.0.
pub const MICROS_PER_UNIT: u64 = 1_000_000;

/// A signed fixed-point decimal: `value = (-1)^negative * micros / 10^6`.
#[derive(Clone, Copy, Debug, PartialEq, Eq, Structural)]
pub struct Decimal {
    pub negative: bool,
    pub micros: u64,
}

impl Decimal {
    /// Well-formed: canonical sign (no negative zero) and bounded magnitude.
    pub open spec fn wf(self) -> bool {
        &&& self.micros < 1_000_000_000_000_000_000u64
        &&& (self.negative ==> self.micros > 0)
    }

    /// The value in signed micro-units.
    pub open spec fn value(self) -> int {
        if self.negative {
            -(self.micros as int)
        } else {
            self.micros as int
        }
    }

    /// The decimal equal to zero.
    pub fn zero() -> (r: Decimal)
        ensures
            r.wf(),
            r.value() == 0,
    {
        Decimal { negative: false, micros: 0 }
    }

    /// The decimal holding `micros` micro-units (non-negative).
    pub fn from_micros(micros: u64) -> (r: Decimal)
        requires
            micros < 1_000_000_000_000_000_000u64,
        ensures
            r.wf(),
            r.value() == micros as int,
    {
        Decimal { negative: false, micros }
    }
}

/// `b` is an ASCII decimal digit.
pub open spec fn is_digit(b: u8) -> bool {
    48 <= b && b <= 57
}

/// Every byte of `s` is an ASCII decimal digit.
pub open spec fn all_digits(s: Seq<u8>) -> bool {
    forall|i: int| 0 <= i < s.len() ==> is_digit(#[trigger] s[i])
}

/// The number denoted by a sequence of digit bytes, most significant first.
pub open spec fn digits_val(s: Seq<u8>) -> nat
    decreases s.len(),
{
    if s.len() == 0 {
        0
    } else {
        digits_val(s.drop_last()) * 10 + (s.last() - 48) as nat
    }
}

/// 10 to the power `n`.
pub open spec fn pow10(n: nat) -> nat
    decreases n,
{
    if n == 0 {
        1
    } else {
        10 * pow10((n - 1) as nat)
    }
}

/// Index of the first occurrence of `b` in `s`, or `s.len()` if absent.
pub open spec fn find_byte(s: Seq<u8>, b: u8) -> int
    decreases s.len(),
{
    if s.len() == 0 {
        0
    } else if s[0] == b {
        0
    } else {
        1 + find_byte(s.drop_first(), b)
    }
}

/// `find_byte` returns the first index holding `b`, or the length.
pub proof fn lemma_find_byte(s: Seq<u8>, b: u8)
    ensures
        0 <= find_byte(s, b) <= s.len(),
        forall|j: int| 0 <= j < find_byte(s, b) ==> s[j] != b,
        find_byte(s, b) < s.len() ==> s[find_byte(s, b)] == b,
    decreases s.len(),
{
    if s.len() > 0 && s[0] != b {
        lemma_find_byte(s.drop_first(), b);
        assert forall|j: int| 0 <= j < find_byte(s, b) implies s[j] != b by {
            if j > 0 {
                assert(s.drop_first()[j - 1] == s[j]);
            }
        }
        if find_byte(s, b) < s.len() {
            assert(s.drop_first()[find_byte(s, b) - 1] == s[find_byte(s, b)]);
        }
    }
}

/// A first occurrence at `k` pins `find_byte` to `k`.
pub proof fn lemma_find_byte_is(s: Seq<u8>, b: u8, k: int)
    requires
        0 <= k <= s.len(),
        forall|j: int| 0 <= j < k ==> s[j] != b,
        k < s.len() ==> s[k] == b,
    ensures
        find_byte(s, b) == k,
{
    lemma_find_byte(s, b);
    let f = find_byte(s, b);
    if f < k {
        assert(s[f] == b);
        assert(false);
    }
    if f > k {
        assert(k < s.len());
        assert(s[k] != b);
        assert(false);
    }
}

/// `s` without its leading zero digits.
pub open spec fn strip_zeros(s: Seq<u8>) -> Seq<u8>
    decreases s.len(),
{
    if s.len() > 0 && s[0] == 48 {
        strip_zeros(s.drop_first())
    } else {
        s
    }
}

/// Dropping one leading zero does not change the denoted number.
proof fn lemma_leading_zero(s: Seq<u8>)
    requires
        s.len() > 0,
        s[0] == 48,
    ensures
        digits_val(s) == digits_val(s.drop_first()),
    decreases s.len(),
{
    if s.len() == 1 {
        assert(s.drop_last() =~= Seq::<u8>::empty());
        assert(s.drop_first() =~= Seq::<u8>::empty());
    } else {
        assert(s.drop_last().len() > 0 && s.drop_last()[0] == 48);
        lemma_leading_zero(s.drop_last());
        assert(s.drop_last().drop_first() =~= s.drop_first().drop_last());
        assert(s.drop_first().last() == s.last());
    }
}

/// Leading zeros do not change the denoted number.
pub proof fn lemma_strip_zeros(s: Seq<u8>)
    ensures
        digits_val(strip_zeros(s)) == digits_val(s),
        strip_zeros(s).len() <= s.len(),
    decreases s.len(),
{
    if s.len() > 0 && s[0] == 48 {
        lemma_leading_zero(s);
        lemma_strip_zeros(s.drop_first());
    }
}

/// With `z` leading zeros, stripping them leaves the tail from `z`.
pub proof fn lemma_strip_zeros_skip(s: Seq<u8>, z: int)
    requires
        0 <= z <= s.len(),
        forall|j: int| 0 <= j < z ==> s[j] == 48,
        z < s.len() ==> s[z] != 48,
    ensures
        strip_zeros(s) =~= s.skip(z),
    decreases z,
{
    if z == 0 {
        if s.len() > 0 {
            assert(s[0] != 48);
        }
        assert(s.skip(0) =~= s);
    } else {
        assert(s[0] == 48);
        assert forall|j: int| 0 <= j < z - 1 implies s.drop_first()[j] == 48 by {
            assert(s.drop_first()[j] == s[j + 1]);
        }
        lemma_strip_zeros_skip(s.drop_first(), z - 1);
        assert(s.drop_first().skip(z - 1) =~= s.skip(z));
    }
}

/// The number denoted by `n` digits is below `10^n`.
pub proof fn lemma_digits_val_bound(s: Seq<u8>)
    requires
        all_digits(s),
    ensures
        digits_val(s) < pow10(s.len() as nat),
    decreases s.len(),
{
    if s.len() > 0 {
        assert(all_digits(s.drop_last()));
        lemma_digits_val_bound(s.drop_last());
        assert(is_digit(s.last()));
    }
}

/// Extending a digit prefix by one digit multiplies by ten and adds it.
pub proof fn lemma_digits_val_step(s: Seq<u8>, i: int)
    requires
        0 <= i < s.len(),
    ensures
        digits_val(s.take(i + 1)) == digits_val(s.take(i)) * 10 + (s[i] - 48) as nat,
{
    assert(s.take(i + 1).drop_last() =~= s.take(i));
    assert(s.take(i + 1).last() == s[i]);
}

/// Concrete powers of ten used for bounds.
pub proof fn lemma_pow10_12()
    ensures
        pow10(0) == 1,
        pow10(1) == 10,
        pow10(2) == 100,
        pow10(3) == 1_000,
        pow10(4) == 10_000,
        pow10(5) == 100_000,
        pow10(6) == 1_000_000,
        pow10(12) == 1_000_000_000_000,
{
    assert(pow10(0) == 1);
    assert(pow10(1) == 10);
    assert(pow10(2) == 100);
    assert(pow10(3) == 1000);
    assert(pow10(4) == 10000);
    assert(pow10(5) == 100000);
    assert(pow10(6) == 1000000);
    assert(pow10(7) == 10000000);
    assert(pow10(8) == 100000000);
    assert(pow10(9) == 1000000000);
    assert(pow10(10) == 10000000000);
    assert(pow10(11) == 100000000000);
    assert(pow10(12) == 1000000000000);
}

/// `all_digits` carries over to any prefix.
pub proof fn lemma_all_digits_take(s: Seq<u8>, i: int)
    requires
        all_digits(s),
        0 <= i <= s.len(),
    ensures
        all_digits(s.take(i)),
{
    assert forall|m: int| 0 <= m < s.take(i).len() implies is_digit(#[trigger] s.take(i)[m]) by {
        assert(s.take(i)[m] == s[m]);
    }
}

/// `all_digits` carries over to any suffix.
pub proof fn lemma_all_digits_skip(s: Seq<u8>, i: int)
    requires
        all_digits(s),
        0 <= i <= s.len(),
    ensures
        all_digits(s.skip(i)),
{
    assert forall|m: int| 0 <= m < s.skip(i).len() implies is_digit(#[trigger] s.skip(i)[m]) by {
        assert(s.skip(i)[m] == s[m + i]);
    }
}

/// The token after its optional leading sign.
pub open spec fn unsigned_part(t: Seq<u8>) -> Seq<u8> {
    if t.len() > 0 && (t[0] == 43 || t[0] == 45) {
        t.drop_first()
    } else {
        t
    }
}

/// The token carries a leading minus sign.
pub open spec fn token_negative(t: Seq<u8>) -> bool {
    t.len() > 0 && t[0] == 45
}

/// The digits before the decimal point of an unsigned token.
pub open spec fn int_digits(u: Seq<u8>) -> Seq<u8> {
    u.take(find_byte(u, 46))
}

/// The digits after the decimal point of an unsigned token.
pub open spec fn frac_digits(u: Seq<u8>) -> Seq<u8> {
    if find_byte(u, 46) < u.len() {
        u.skip(find_byte(u, 46) + 1)
    } else {
        Seq::<u8>::empty()
    }
}

/// `t` is a numeric token: optional sign, digits, at most one point,
/// at least one digit.
pub open spec fn is_numeric_token(t: Seq<u8>) -> bool {
    let u = unsigned_part(t);
    &&& u.len() > 0
    &&& all_digits(int_digits(u))
    &&& all_digits(frac_digits(u))
    &&& int_digits(u).len() + frac_digits(u).len() > 0
}

/// Micro-units contributed by the fractional digits (truncated past six).
pub open spec fn frac_micros(f: Seq<u8>) -> nat {
    if f.len() >= 6 {
        digits_val(f.take(6))
    } else {
        digits_val(f) * pow10((6 - f.len()) as nat)
    }
}

/// The magnitude of a numeric token, in micro-units.
pub open spec fn token_micros(t: Seq<u8>) -> nat {
    let u = unsigned_part(t);
    digits_val(int_digits(u)) * 1_000_000 + frac_micros(frac_digits(u))
}

/// The token's integer part stays within twelve significant digits.
pub open spec fn token_fits(t: Seq<u8>) -> bool {
    strip_zeros(int_digits(unsigned_part(t))).len() <= 12
}

/// The signed value of a numeric token, in micro-units.
pub open spec fn token_value(t: Seq<u8>) -> int {
    if token_negative(t) {
        -(token_micros(t) as int)
    } else {
        token_micros(t) as int
    }
}

/// What parsing a token yields: its value for a numeric token in range,
/// nothing otherwise.
pub open spec fn parse_decimal_spec(t: Seq<u8>) -> Option<Decimal> {
    if is_numeric_token(t) && token_fits(t) {
        Some(
            Decimal {
                negative: token_negative(t) && token_micros(t) > 0,
                micros: token_micros(t) as u64,
            },
        )
    } else {
        None
    }
}

/// Copy the byte range `t[i..j]`.
fn copy_range(t: &[u8], i: usize, j: usize) -> (r: Vec<u8>)
    requires
        i <= j <= t@.len(),
    ensures
        r@ == t@.subrange(i as int, j as int),
{
    let mut r: Vec<u8> = Vec::new();
    let mut k: usize = i;
    while k < j
        invariant
            i <= k <= j <= t@.len(),
            r@ =~= t@.subrange(i as int, k as int),
        decreases j - k,
    {
        r.push(t[k]);
        proof {
            assert(t@.subrange(i as int, k + 1) =~= t@.subrange(i as int, k as int).push(
                t@[k as int],
            ));
        }
        k += 1;
    }
    proof {
        assert(r@ =~= t@.subrange(i as int, j as int));
    }
    r
}

/// Decide whether every byte of `v` is an ASCII digit.
fn check_digits(v: &[u8]) -> (b: bool)
    ensures
        b == all_digits(v@),
{
    let mut k: usize = 0;
    while k < v.len()
        invariant
            0 <= k <= v@.len(),
            forall|m: int| 0 <= m < k ==> is_digit(v@[m]),
        decreases v@.len() - k,
    {
        let b = v[k];
        if b < 48 || b > 57 {
            return false;
        }
        k += 1;
    }
    true
}

/// The number denoted by a digit string, or `None` when it has more than
/// twelve significant digits.
#[verifier::loop_isolation(false)]
fn int_value(v: &[u8]) -> (r: Option<u64>)
    requires
        all_digits(v@),
    ensures
        r is Some <==> strip_zeros(v@).len() <= 12,
        r is Some ==> r.unwrap() == digits_val(v@) && r.unwrap() < 1_000_000_000_000u64,
{
    let n = v.len();
    let mut z: usize = 0;
    while z < n && v[z] == 48
        invariant
            0 <= z <= n,
            forall|m: int| 0 <= m < z ==> v@[m] == 48,
        decreases n - z,
    {
        z += 1;
    }
    proof {
        lemma_strip_zeros_skip(v@, z as int);
        lemma_strip_zeros(v@);
    }
    if n - z > 12 {
        return None;
    }
    let ghost sig = v@.skip(z as int);
    proof {
        lemma_all_digits_skip(v@, z as int);
        lemma_pow10_12();
    }
    let mut acc: u64 = 0;
    let mut p: usize = z;
    while p < n
        invariant
            z <= p <= n,
            acc == digits_val(sig.take(p - z)),
            acc < 1_000_000_000_000u64,
        decreases n - p,
    {
        proof {
            assert(sig[p - z] == v@[p as int]);
            lemma_all_digits_take(sig, p - z + 1);
            lemma_digits_val_bound(sig.take(p - z + 1));
            lemma_pow10_mono((p - z + 1) as nat, 12);
            lemma_digits_val_step(sig, p - z);
        }
        acc = acc * 10 + ((v[p] - 48) as u64);
        p += 1;
    }
    proof {
        assert(sig.take(n - z) =~= sig);
    }
    Some(acc)
}

/// Micro-units denoted by the fractional digit string `v`, truncated to
/// six places.
#[verifier::loop_isolation(false)]
fn frac_value(v: &[u8]) -> (r: u64)
    requires
        all_digits(v@),
    ensures
        r == frac_micros(v@),
        r < 1_000_000u64,
{
    let n = v.len();
    let lim: usize = if n < 6 {
        n
    } else {
        6
    };
    proof {
        lemma_pow10_12();
    }
    let mut acc: u64 = 0;
    let mut p: usize = 0;
    while p < lim
        invariant
            0 <= p <= lim,
            acc == digits_val(v@.take(p as int)),
            acc < 1_000_000u64,
        decreases lim - p,
    {
        proof {
            lemma_all_digits_take(v@, p + 1);
            lemma_digits_val_bound(v@.take(p + 1));
            lemma_pow10_mono((p + 1) as nat, 6);
            lemma_digits_val_step(v@, p as int);
        }
        acc = acc * 10 + ((v[p] - 48) as u64);
        p += 1;
    }
    if n >= 6 {
        acc
    } else {
        proof {
            lemma_digits_val_bound(v@);
            assert(v@.take(n as int) =~= v@);
        }
        if n == 0 {
            acc * 1_000_000
        } else if n == 1 {
            acc * 100_000
        } else if n == 2 {
            acc * 10_000
        } else if n == 3 {
            acc * 1_000
        } else if n == 4 {
            acc * 100
        } else {
            acc * 10
        }
    }
}

/// Parse a numeric token into a [`Decimal`].
///
/// Returns the token's exact value for every numeric token whose integer
/// part has at most twelve significant digits, and `None` for every other
/// byte string.
#[verifier::loop_isolation(false)]
pub fn parse_decimal(t: &[u8]) -> (r: Option<Decimal>)
    ensures
        r == parse_decimal_spec(t@),
        r is Some ==> r.unwrap().wf() && r.unwrap().value() == token_value(t@),
{
    let n = t.len();
    let ghost tv = t@;
    let mut start: usize = 0;
    let mut neg = false;
    if n > 0 && (t[0] == 43 || t[0] == 45) {
        neg = t[0] == 45;
        start = 1;
    }
    let ghost u = unsigned_part(tv);
    proof {
        assert(u =~= tv.skip(start as int));
        assert(neg == token_negative(tv));
    }
    if start == n {
        return None;
    }
    // Locate the first decimal point in the unsigned part.
    let mut j: usize = start;
    while j < n && t[j] != 46
        invariant
            start <= j <= n,
            forall|k: int| start <= k < j ==> t@[k] != 46,
        decreases n - j,
    {
        j += 1;
    }
    let dot: usize = j;
    proof {
        assert forall|k: int| 0 <= k < dot - start implies u[k] != 46 by {
            assert(u[k] == tv.skip(start as int)[k]);
            assert(tv.skip(start as int)[k] == tv[k + start]);
        }
        if dot < n {
            assert(u[dot - start] == tv.skip(start as int)[dot - start]);
            assert(tv.skip(start as int)[dot - start] == tv[dot as int]);
        }
        lemma_find_byte_is(u, 46, dot - start);
        assert(int_digits(u) =~= tv.subrange(start as int, dot as int));
        if dot < n {
            assert(frac_digits(u) =~= tv.subrange(dot + 1, n as int));
        } else {
            assert(frac_digits(u) =~= Seq::<u8>::empty());
        }
    }
    // Reject a token with no digit at all.
    if dot == start && dot + 1 >= n {
        proof {
            assert(int_digits(u).len() + frac_digits(u).len() == 0);
        }
        return None;
    }
    let ip = copy_range(t, start, dot);
    let fp = if dot < n {
        copy_range(t, dot + 1, n)
    } else {
        Vec::new()
    };
    proof {
        assert(ip@ == int_digits(u));
        assert(fp@ == frac_digits(u));
    }
    if !check_digits(ip.as_slice()) {
        return None;
    }
    if !check_digits(fp.as_slice()) {
        return None;
    }
    proof {
        assert(is_numeric_token(tv));
    }
    let iv = match int_value(ip.as_slice()) {
        None => {
            proof {
                assert(!token_fits(tv));
            }
            return None;
        },
        Some(x) => x,
    };
    let fv = frac_value(fp.as_slice());
    let micros: u64 = iv * 1_000_000 + fv;
    proof {
        assert(token_micros(tv) == micros);
    }
    let negative = neg && micros > 0;
    Some(Decimal { negative, micros })
}

/// `pow10` is monotone in its exponent.
pub proof fn lemma_pow10_mono(a: nat, b: nat)
    requires
        a <= b,
    ensures
        pow10(a) <= pow10(b),
    decreases b,
{
    if a < b {
        lemma_pow10_mono(a, (b - 1) as nat);
        assert(pow10(b) == 10 * pow10((b - 1) as nat));
    }
}

/// Clamp a decimal to the unit interval `[0, 1]`.
pub open spec fn clamp_unit_spec(v: int) -> int {
    if v < 0 {
        0
    } else if v > 1_000_000 {
        1_000_000
    } else {
        v
    }
}

/// Clamp a decimal into `[0, 1]`: negatives become 0, values above one
/// become exactly 1.
pub fn clamp_unit(d: Decimal) -> (r: Decimal)
    requires
        d.wf(),
    ensures
        r.wf(),
        r.value() == clamp_unit_spec(d.value()),
        !r.negative,
        r.micros <= 1_000_000,
{
    if d.negative {
        Decimal { negative: false, micros: 0 }
    } else if d.micros > 1_000_000 {
        Decimal { negative: false, micros: 1_000_000 }
    } else {
        Decimal { negative: false, micros: d.micros }
    }
}

} // verus!
