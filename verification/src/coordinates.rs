//! Geographic coordinates, held as fixed-point microdegrees.
//!
//! The store's wire format and the postback payloads carry latitude and
//! longitude as decimal-degree strings. The library holds them as integer
//! millionths of a degree (about 0.1 m of latitude per unit, finer than the
//! single-precision values the store keeps), so that the proximity rules can
//! be verified over plain integers; only the great-circle distance itself,
//! which is floating-point work, is left to the surrounding program.

use vstd::prelude::*;
use vstd::arithmetic::mul::*;

verus! {

/// A latitude/longitude pair in microdegrees.
#[derive(Debug, Clone, Copy, PartialEq, Eq, Structural)]
pub struct Coordinates {
    pub latitude: i64,
    pub longitude: i64,
}

/// The largest magnitude `format_micro` accepts; every value produced by
/// `parse_micro` is strictly below it.
pub const MICRO_MAGNITUDE_CAP: i64 = 1000000000000000000;

pub open spec fn is_digit(c: char) -> bool {
    '0' <= c && c <= '9'
}

pub open spec fn digit_val(c: char) -> int {
    c as int - '0' as int
}

pub open spec fn all_digits(s: Seq<char>) -> bool {
    forall|i: int| 0 <= i < s.len() ==> is_digit(#[trigger] s[i])
}

/// The number denoted by a digit string, most significant digit first.
pub open spec fn digits_val(s: Seq<char>) -> int
    decreases s.len(),
{
    if s.len() == 0 {
        0
    } else {
        digits_val(s.drop_last()) * 10 + digit_val(s.last())
    }
}

pub open spec fn pow10(n: nat) -> int
    decreases n,
{
    if n == 0 {
        1
    } else {
        10 * pow10((n - 1) as nat)
    }
}

pub proof fn lemma_pow10_pos(n: nat)
    ensures
        pow10(n) >= 1,
    decreases n,
{
    if n > 0 {
        lemma_pow10_pos((n - 1) as nat);
    }
}

/// A string of digits denotes a value below `pow10` of its length.
pub proof fn lemma_digits_val_bound(s: Seq<char>)
    requires
        all_digits(s),
    ensures
        0 <= digits_val(s) < pow10(s.len()),
    decreases s.len(),
{
    if s.len() > 0 {
        assert(all_digits(s.drop_last())) by {
            assert(forall|i: int|
                0 <= i < s.len() - 1 ==> #[trigger] s.drop_last()[i] == s[i]);
        }
        lemma_digits_val_bound(s.drop_last());
        assert(is_digit(s.last()));
        assert(0 <= digit_val(s.last()) <= 9);
    }
}

/// The value of the first six fractional digits, scaled to six places.
pub open spec fn frac6(fp: Seq<char>) -> int {
    if fp.len() <= 6 {
        digits_val(fp) * pow10((6 - fp.len()) as nat)
    } else {
        digits_val(fp.take(6))
    }
}

/// The microdegree value of an unsigned decimal-degree string: one to twelve
/// integer digits, optionally followed by a dot and any run of fractional
/// digits, of which the first six are kept.
pub open spec fn spec_parse_unsigned_micro(s: Seq<char>) -> Option<int> {
    match crate::strutil::spec_find_char(s, '.') {
        Some(i) => spec_combine_parts(s.take(i), s.skip(i + 1)),
        None => spec_combine_parts(s, Seq::<char>::empty()),
    }
}

pub open spec fn spec_combine_parts(ip: Seq<char>, fp: Seq<char>) -> Option<int> {
    if 1 <= ip.len() <= 12 && all_digits(ip) && all_digits(fp) {
        Some(digits_val(ip) * 1000000 + frac6(fp))
    } else {
        None
    }
}

/// The microdegree value of a decimal-degree string with an optional
/// leading minus sign.
pub open spec fn spec_parse_micro(s: Seq<char>) -> Option<int> {
    if s.len() > 0 && s[0] == '-' {
        match spec_parse_unsigned_micro(s.skip(1)) {
            Some(v) => Some(-v),
            None => None,
        }
    } else {
        spec_parse_unsigned_micro(s)
    }
}

proof fn lemma_frac6_bound(fp: Seq<char>)
    requires
        all_digits(fp),
    ensures
        0 <= frac6(fp) < 1000000,
{
    lemma_pow10_chain();
    if fp.len() <= 6 {
        lemma_digits_val_bound(fp);
        lemma_pow10_pos((6 - fp.len()) as nat);
        assert(digits_val(fp) * pow10((6 - fp.len()) as nat) <= (pow10(fp.len()) - 1) * pow10(
            (6 - fp.len()) as nat,
        )) by {
            lemma_mul_inequality(
                digits_val(fp),
                pow10(fp.len()) - 1,
                pow10((6 - fp.len()) as nat),
            );
        }
        assert((pow10(fp.len()) - 1) * pow10((6 - fp.len()) as nat) < pow10(6)) by {
            lemma_pow10_split(fp.len(), (6 - fp.len()) as nat);
            lemma_mul_is_distributive_sub_other_way(
                pow10((6 - fp.len()) as nat),
                pow10(fp.len()),
                1,
            );
            lemma_pow10_pos((6 - fp.len()) as nat);
        }
        assert(digits_val(fp) >= 0);
        lemma_mul_nonnegative(digits_val(fp), pow10((6 - fp.len()) as nat));
    } else {
        assert(all_digits(fp.take(6))) by {
            assert(forall|i: int| 0 <= i < 6 ==> #[trigger] fp.take(6)[i] == fp[i]);
        }
        lemma_digits_val_bound(fp.take(6));
    }
}

/// `pow10` of a sum is the product of the factors.
pub proof fn lemma_pow10_split(a: nat, b: nat)
    ensures
        pow10(a + b) == pow10(a) * pow10(b),
    decreases a,
{
    if a == 0 {
        assert(pow10(b) == 1 * pow10(b));
    } else {
        lemma_pow10_split((a - 1) as nat, b);
        assert(pow10((a - 1) as nat + b) == pow10((a - 1) as nat) * pow10(b));
        assert(pow10(a + b) == 10 * pow10((a + b - 1) as nat));
        assert((a + b - 1) as nat == (a - 1) as nat + b);
        lemma_mul_is_associative(10, pow10((a - 1) as nat), pow10(b));
    }
}

pub proof fn lemma_pow10_monotone(a: nat, b: nat)
    requires
        a <= b,
    ensures
        pow10(a) <= pow10(b),
    decreases b,
{
    if a < b {
        lemma_pow10_monotone(a, (b - 1) as nat);
        lemma_pow10_pos((b - 1) as nat);
    }
}

/// Concrete values of the small powers of ten the proofs lean on.
pub proof fn lemma_pow10_chain()
    ensures
        pow10(0) == 1,
        pow10(1) == 10,
        pow10(2) == 100,
        pow10(3) == 1000,
        pow10(4) == 10000,
        pow10(5) == 100000,
        pow10(6) == 1000000,
        pow10(12) == 1000000000000,
{
    assert(pow10(0) == 1);
    assert(pow10(1) == 10);
    assert(pow10(2) == 100);
    assert(pow10(3) == 1000);
    assert(pow10(4) == 10000);
    assert(pow10(5) == 100000);
    assert(pow10(6) == 1000000);
    assert(pow10(7) == 10000000);
    assert(pow10(8) == 100000000);
    assert(pow10(9) == 1000000000);
    assert(pow10(10) == 10000000000);
    assert(pow10(11) == 100000000000);
    assert(pow10(12) == 1000000000000);
}

/// Parses an unsigned decimal-degree string into microdegrees.
fn parse_unsigned_micro(s: &str) -> (r: Option<i64>)
    ensures
        match r {
            Some(v) => spec_parse_unsigned_micro(s@) == Some(v as int) && 0 <= v
                < MICRO_MAGNITUDE_CAP,
            None => spec_parse_unsigned_micro(s@) is None,
        },
{
    let len = s.unicode_len();
    let dot = crate::strutil::find_char(s, '.');
    let ip_end: usize = match dot {
        Some(d) => d,
        None => len,
    };
    proof {
        crate::strutil::lemma_find_char(s@, '.');
    }
    let ghost ip: Seq<char> = match dot {
        Some(d) => s@.take(d as int),
        None => s@,
    };
    let ghost fp: Seq<char> = match dot {
        Some(d) => s@.skip(d + 1),
        None => Seq::<char>::empty(),
    };
    proof {
        assert(ip =~= s@.take(ip_end as int));
        assert(spec_parse_unsigned_micro(s@) == spec_combine_parts(ip, fp));
        assert(ip.len() == ip_end);
    }
    if ip_end < 1 || ip_end > 12 {
        return None;
    }
    // Integer part.
    let mut i: usize = 0;
    let mut iv: i64 = 0;
    while i < ip_end
        invariant
            0 <= i <= ip_end,
            1 <= ip_end <= 12,
            ip_end <= len,
            len == s@.len(),
            ip =~= s@.take(ip_end as int),
            spec_parse_unsigned_micro(s@) == spec_combine_parts(ip, fp),
            all_digits(ip.take(i as int)),
            iv == digits_val(ip.take(i as int)),
            0 <= iv < pow10(i as nat),
        decreases ip_end - i,
    {
        let c = s.get_char(i);
        if c < '0' || c > '9' {
            assert(!is_digit(ip[i as int]));
            assert(!all_digits(ip));
            return None;
        }
        let d: i64 = (c as u32 - '0' as u32) as i64;
        proof {
            lemma_pow10_chain();
            lemma_pow10_monotone(i as nat, 11);
            assert(pow10(11) == 100000000000) by {
                lemma_pow10_chain();
                assert(pow10(12) == 10 * pow10(11));
            }
            assert(iv * 10 <= (pow10(11) - 1) * 10) by {
                lemma_mul_inequality(iv as int, pow10(11) - 1, 10);
            }
            lemma_mul_nonnegative(iv as int, 10);
            assert(ip.take(i + 1).drop_last() =~= ip.take(i as int));
            assert(ip.take(i + 1).last() == ip[i as int]);
            assert(digit_val(ip[i as int]) == d as int);
        }
        iv = iv * 10 + d;
        i += 1;
        proof {
            assert(forall|j: int|
                0 <= j < i ==> #[trigger] ip.take(i as int)[j] == ip[j]);
        }
    }
    assert(ip.take(ip_end as int) =~= ip);
    // Fractional part.
    let mut fv: i64 = 0;
    if let Some(d) = dot {
        let mut j: usize = d + 1;
        let mut taken: usize = 0;
        while j < len
            invariant
                d + 1 <= j <= len,
                d < len,
                len == s@.len(),
                fp =~= s@.skip(d + 1),
                spec_parse_unsigned_micro(s@) == spec_combine_parts(ip, fp),
                taken == if j - d - 1 <= 6 {
                    j - d - 1
                } else {
                    6
                },
                all_digits(fp.take((j - d - 1) as int)),
                fv == digits_val(fp.take(taken as int)),
                0 <= fv < pow10(taken as nat),
            decreases len - j,
        {
            let c = s.get_char(j);
            if c < '0' || c > '9' {
                assert(!is_digit(fp[(j - d - 1) as int]));
                assert(!all_digits(fp));
                return None;
            }
            if taken < 6 {
                let dv: i64 = (c as u32 - '0' as u32) as i64;
                proof {
                    lemma_pow10_chain();
                    lemma_pow10_monotone(taken as nat, 5);
                    assert(pow10(5) == 100000);
                    assert(fv * 10 <= (pow10(5) - 1) * 10) by {
                        lemma_mul_inequality(fv as int, pow10(5) - 1, 10);
                    }
                    lemma_mul_nonnegative(fv as int, 10);
                    assert(fp.take(taken + 1).drop_last() =~= fp.take(taken as int));
                    assert(fp.take(taken + 1).last() == fp[taken as int]);
                    assert(digit_val(fp[taken as int]) == dv as int);
                }
                fv = fv * 10 + dv;
                taken += 1;
            }
            j += 1;
            proof {
                assert(forall|k: int|
                    0 <= k < j - d - 1 ==> #[trigger] fp.take((j - d - 1) as int)[k] == fp[k]);
                assert(forall|k: int|
                    0 <= k < taken ==> #[trigger] fp.take(taken as int)[k] == fp[k]);
            }
        }
        assert(fp.take((len - d - 1) as int) =~= fp);
        // Scale a short fraction up to six places.
        if taken < 6 {
            let mut scale: i64 = 1;
            let mut w: usize = taken;
            while w < 6
                invariant
                    taken <= w <= 6,
                    scale == pow10((w - taken) as nat),
                    0 < scale <= 1000000,
                decreases 6 - w,
            {
                proof {
                    lemma_pow10_chain();
                    lemma_pow10_monotone(((w - taken) as nat + 1) as nat, 6);
                }
                scale = scale * 10;
                w += 1;
            }
            proof {
                assert(fp.len() == taken);
                assert(fp.take(taken as int) =~= fp);
                lemma_pow10_chain();
                lemma_pow10_monotone(taken as nat, 6);
                assert(fv * scale < pow10(taken as nat) * pow10((6 - taken) as nat)) by {
                    lemma_mul_strict_inequality(fv as int, pow10(taken as nat), scale as int);
                }
                lemma_pow10_split(taken as nat, (6 - taken) as nat);
                lemma_mul_nonnegative(fv as int, scale as int);
            }
            fv = fv * scale;
            assert(fv == frac6(fp));
        } else {
            assert(fp.len() >= 6);
            if len - d - 1 == 6 {
                proof {
                    assert(fp.take(6) =~= fp);
                    lemma_pow10_chain();
                    assert((6 - fp.len()) as nat == 0);
                    assert(pow10(0) == 1);
                    assert(frac6(fp) == digits_val(fp) * 1);
                }
                assert(fv == frac6(fp));
            } else {
                assert(fv == frac6(fp));
            }
        }
    }
    proof {
        if dot is None {
            assert(fv == frac6(fp));
        }
        assert(all_digits(ip));
        assert(all_digits(fp)) by {
            if dot is Some {
            } else {
            }
        }
        lemma_digits_val_bound(ip);
        lemma_pow10_chain();
        lemma_pow10_monotone(ip.len() as nat, 12);
        assert(iv * 1000000 <= (pow10(12) - 1) * 1000000) by {
            lemma_mul_inequality(iv as int, pow10(12) - 1, 1000000);
        }
        lemma_mul_nonnegative(iv as int, 1000000);
        lemma_frac6_bound(fp);
        assert(spec_parse_unsigned_micro(s@) == spec_combine_parts(ip, fp));
    }
    Some(iv * 1000000 + fv)
}

/// Parses a decimal-degree string, with an optional leading minus sign,
/// into microdegrees; rejects exactly the strings outside the grammar.
pub fn parse_micro(s: &str) -> (r: Option<i64>)
    ensures
        match r {
            Some(v) => spec_parse_micro(s@) == Some(v as int) && -MICRO_MAGNITUDE_CAP < v
                < MICRO_MAGNITUDE_CAP,
            None => spec_parse_micro(s@) is None,
        },
{
    let len = s.unicode_len();
    if len > 0 && s.get_char(0) == '-' {
        let rest = s.substring_char(1, len);
        assert(rest@ =~= s@.skip(1));
        match parse_unsigned_micro(rest) {
            Some(v) => Some(-v),
            None => None,
        }
    } else {
        parse_unsigned_micro(s)
    }
}

// ---------------------------------------------------------------------------
// Rendering microdegrees back to a decimal-degree string.
pub open spec fn digit_char(d: int) -> char {
    if d == 0 {
        '0'
    } else if d == 1 {
        '1'
    } else if d == 2 {
        '2'
    } else if d == 3 {
        '3'
    } else if d == 4 {
        '4'
    } else if d == 5 {
        '5'
    } else if d == 6 {
        '6'
    } else if d == 7 {
        '7'
    } else if d == 8 {
        '8'
    } else {
        '9'
    }
}

/// The decimal digits of `n`, most significant first, without leading zeros.
pub open spec fn spec_dec(n: nat) -> Seq<char>
    decreases n,
{
    if n < 10 {
        seq![digit_char(n as int)]
    } else {
        spec_dec(n / 10).push(digit_char((n % 10) as int))
    }
}

pub open spec fn zeros(n: nat) -> Seq<char>
    decreases n,
{
    if n == 0 {
        Seq::<char>::empty()
    } else {
        zeros((n - 1) as nat).push('0')
    }
}

/// `s` without its trailing zero characters.
pub open spec fn trim0(s: Seq<char>) -> Seq<char>
    decreases s.len(),
{
    if s.len() > 0 && s.last() == '0' {
        trim0(s.drop_last())
    } else {
        s
    }
}

/// The fractional digits of a six-place fraction, zero-padded on the left
/// and with trailing zeros dropped.
pub open spec fn spec_frac_str(f: nat) -> Seq<char> {
    trim0(zeros((6 - spec_dec(f).len()) as nat) + spec_dec(f))
}

/// The canonical decimal-degree rendering of a microdegree value: a minus
/// sign for negative values, the whole degrees, and the non-zero fraction
/// after a dot with trailing zeros dropped.
pub open spec fn spec_format_micro(v: int) -> Seq<char> {
    let a = if v < 0 {
        -v
    } else {
        v
    };
    let whole = a / 1000000;
    let frac = a % 1000000;
    let sign: Seq<char> = if v < 0 {
        seq!['-']
    } else {
        Seq::<char>::empty()
    };
    if frac == 0 {
        sign + spec_dec(whole as nat)
    } else {
        sign + spec_dec(whole as nat) + seq!['.'] + spec_frac_str(frac as nat)
    }
}

pub proof fn lemma_dec_len_bound(n: nat, m: nat)
    requires
        m >= 1,
        n < pow10(m),
    ensures
        1 <= spec_dec(n).len() <= m,
    decreases n,
{
    if n < 10 {
    } else {
        lemma_pow10_pos(m);
        assert(m >= 2) by {
            if m == 1 {
                assert(pow10(1) == 10 * pow10(0));
            }
        }
        assert(n / 10 < pow10((m - 1) as nat)) by {
            vstd::arithmetic::div_mod::lemma_fundamental_div_mod(n as int, 10);
            assert(pow10(m) == 10 * pow10((m - 1) as nat));
            if n / 10 >= pow10((m - 1) as nat) {
                assert(10 * (n as int / 10) >= 10 * pow10((m - 1) as nat)) by {
                    lemma_mul_inequality(pow10((m - 1) as nat), n as int / 10, 10);
                }
            }
        }
        lemma_dec_len_bound(n / 10, (m - 1) as nat);
    }
}

/// The last digit of `spec_dec(n)` renders `n % 10`.
pub proof fn lemma_dec_last(n: nat)
    ensures
        spec_dec(n).len() >= 1,
        spec_dec(n).last() == digit_char((n % 10) as int),
    decreases n,
{
    if n < 10 {
        vstd::arithmetic::div_mod::lemma_small_mod(n, 10);
    }
}

proof fn lemma_dec_mul10(x: nat)
    requires
        x >= 1,
    ensures
        spec_dec(x * 10) == spec_dec(x).push('0'),
{
    assert(x * 10 >= 10) by {
        lemma_mul_inequality(1, x as int, 10);
    }
    assert((x * 10) as nat / 10 == x) by {
        vstd::arithmetic::div_mod::lemma_fundamental_div_mod((x * 10) as int, 10);
        assert((x * 10) as int == 10 * x + 0);
        vstd::arithmetic::div_mod::lemma_mod_multiples_basic(x as int, 10);
    }
    assert((x * 10) as nat % 10 == 0) by {
        vstd::arithmetic::div_mod::lemma_mod_multiples_basic(x as int, 10);
    }
}

/// Multiplying by a power of ten appends that many zeros to the rendering.
pub proof fn lemma_dec_mul_pow10(x: nat, k: nat)
    requires
        x >= 1,
    ensures
        spec_dec((x * pow10(k)) as nat) == spec_dec(x) + zeros(k),
    decreases k,
{
    if k == 0 {
        assert(x * pow10(0) == x) by {
            lemma_mul_basics(x as int);
        }
        assert(spec_dec(x) + zeros(0) =~= spec_dec(x));
    } else {
        lemma_dec_mul_pow10(x, (k - 1) as nat);
        lemma_pow10_pos((k - 1) as nat);
        assert(x * pow10(k) == (x * pow10((k - 1) as nat)) * 10) by {
            assert(pow10(k) == 10 * pow10((k - 1) as nat));
            lemma_mul_is_associative(x as int, pow10((k - 1) as nat), 10);
            lemma_mul_is_commutative(10, pow10((k - 1) as nat));
        }
        assert(x * pow10((k - 1) as nat) >= 1) by {
            lemma_mul_inequality(1, x as int, pow10((k - 1) as nat));
        }
        lemma_dec_mul10((x * pow10((k - 1) as nat)) as nat);
        assert(spec_dec((x * pow10(k)) as nat) == (spec_dec(x) + zeros((k - 1) as nat)).push('0'));
        assert((spec_dec(x) + zeros((k - 1) as nat)).push('0') =~= spec_dec(x) + zeros(k));
    }
}

/// Trailing zeros do not change the trimmed rendering.
pub proof fn lemma_trim0_zeros(s: Seq<char>, k: nat)
    ensures
        trim0(s + zeros(k)) == trim0(s),
    decreases k,
{
    if k == 0 {
        assert(s + zeros(0) =~= s);
    } else {
        assert(s + zeros(k) =~= (s + zeros((k - 1) as nat)).push('0'));
        assert((s + zeros((k - 1) as nat)).push('0').last() == '0');
        assert((s + zeros((k - 1) as nat)).push('0').drop_last() =~= s + zeros((k - 1) as nat));
        lemma_trim0_zeros(s, (k - 1) as nat);
    }
}

pub proof fn lemma_zeros_len(n: nat)
    ensures
        zeros(n).len() == n,
    decreases n,
{
    if n > 0 {
        lemma_zeros_len((n - 1) as nat);
    }
}

pub proof fn lemma_trim0_noop(s: Seq<char>)
    requires
        s.len() > 0,
        s.last() != '0',
    ensures
        trim0(s) == s,
{
}

pub proof fn lemma_digit_char_zero(d: int)
    requires
        0 <= d <= 9,
    ensures
        (digit_char(d) == '0') <==> (d == 0),
{
}

/// One digit as a string slice.
fn digit_str(d: u64) -> (r: &'static str)
    requires
        d < 10,
    ensures
        r@ =~= seq![digit_char(d as int)],
{
    proof {
        reveal_strlit("0");
        reveal_strlit("1");
        reveal_strlit("2");
        reveal_strlit("3");
        reveal_strlit("4");
        reveal_strlit("5");
        reveal_strlit("6");
        reveal_strlit("7");
        reveal_strlit("8");
        reveal_strlit("9");
    }
    match d {
        0 => "0",
        1 => "1",
        2 => "2",
        3 => "3",
        4 => "4",
        5 => "5",
        6 => "6",
        7 => "7",
        8 => "8",
        _ => "9",
    }
}

/// Appends the decimal rendering of `n` to `out`.
fn push_dec(out: &mut String, n: u64)
    ensures
        final(out)@ == old(out)@ + spec_dec(n as nat),
    decreases n,
{
    if n < 10 {
        out.append(digit_str(n));
    } else {
        push_dec(out, n / 10);
        out.append(digit_str(n % 10));
        proof {
            assert(old(out)@ + spec_dec((n / 10) as nat) + seq![
                digit_char((n % 10) as int),
            ] =~= old(out)@ + spec_dec(n as nat));
        }
    }
}

/// The number of decimal digits of `n`.
fn dec_len(n: u64) -> (r: usize)
    ensures
        r == spec_dec(n as nat).len(),
        1 <= r <= 20,
    decreases n,
{
    proof {
        lemma_pow10_wide();
        lemma_dec_len_bound(n as nat, 20);
    }
    if n < 10 {
        1
    } else {
        let rest = dec_len(n / 10);
        rest + 1
    }
}

/// Concrete values of the larger powers of ten.
pub proof fn lemma_pow10_wide()
    ensures
        pow10(20) == 100000000000000000000,
{
    lemma_pow10_chain();
    assert(pow10(13) == 10000000000000);
    assert(pow10(14) == 100000000000000);
    assert(pow10(15) == 1000000000000000);
    assert(pow10(16) == 10000000000000000);
    assert(pow10(17) == 100000000000000000);
    assert(pow10(18) == 1000000000000000000);
    assert(pow10(19) == 10000000000000000000);
    assert(pow10(20) == 100000000000000000000);
}

/// Appends the trimmed six-place fraction `f` to `out`.
fn push_frac6(out: &mut String, f: u64)
    requires
        1 <= f < 1000000,
    ensures
        final(out)@ == old(out)@ + spec_frac_str(f as nat),
{
    let ghost base: Seq<char> = out@;
    // Strip the factors of ten so the emitted digits end on a non-zero one.
    let mut t: u64 = f;
    let mut k: usize = 0;
    proof {
        lemma_pow10_chain();
        assert(f as int == t as int * pow10(0)) by {
            lemma_mul_basics(t as int);
        }
    }
    while t % 10 == 0
        invariant
            1 <= t <= f < 1000000,
            k <= 5,
            f as int == t as int * pow10(k as nat),
        decreases t,
    {
        proof {
            vstd::arithmetic::div_mod::lemma_fundamental_div_mod(t as int, 10);
            lemma_pow10_chain();
            assert(t as int == 10 * (t as int / 10));
            assert(t / 10 >= 1);
            assert(f as int == (t as int / 10) * pow10((k + 1) as nat)) by {
                assert(pow10((k + 1) as nat) == 10 * pow10(k as nat));
                lemma_mul_is_associative(t as int / 10, 10, pow10(k as nat));
            }
            assert(k + 1 <= 5) by {
                if k == 5 {
                    assert(pow10(6) == 1000000);
                    assert((t as int / 10) * pow10(6nat) >= 1 * pow10(6nat)) by {
                        lemma_mul_inequality(1, t as int / 10, pow10(6nat));
                    }
                }
            }
        }
        t = t / 10;
        k = k + 1;
    }
    let dl = dec_len(t);
    proof {
        lemma_pow10_chain();
        assert((t as int) < pow10((6 - k) as nat)) by {
            if (t as int) >= pow10((6 - k) as nat) {
                assert(t as int * pow10(k as nat) >= pow10((6 - k) as nat) * pow10(
                    k as nat,
                )) by {
                    lemma_mul_inequality(pow10((6 - k) as nat), t as int, pow10(k as nat));
                }
                lemma_pow10_split((6 - k) as nat, k as nat);
            }
        }
        lemma_dec_len_bound(t as nat, (6 - k) as nat);
    }
    // Left padding with zeros up to the fraction's width.
    let width = 6 - k;
    let mut z: usize = 0;
    proof {
        reveal_strlit("0");
        assert(out@ =~= base + zeros(0));
    }
    while z < width - dl
        invariant
            z <= width - dl,
            dl <= width <= 6,
            out@ =~= base + zeros(z as nat),
        decreases width - dl - z,
    {
        out.append("0");
        z += 1;
        proof {
            reveal_strlit("0");
            assert("0"@ =~= seq!['0']);
            assert(base + zeros((z - 1) as nat) + "0"@ =~= base + zeros(z as nat));
        }
    }
    push_dec(out, t);
    proof {
        lemma_dec_mul_pow10(t as nat, k as nat);
        assert(spec_dec(f as nat) == spec_dec(t as nat) + zeros(k as nat));
        lemma_zeros_len(k as nat);
        assert(spec_dec(f as nat).len() == dl + k);
        let padded = zeros((6 - dl - k) as nat) + spec_dec(t as nat);
        assert(spec_frac_str(f as nat) == trim0(
            zeros((6 - dl - k) as nat) + (spec_dec(t as nat) + zeros(k as nat)),
        ));
        assert(zeros((6 - dl - k) as nat) + (spec_dec(t as nat) + zeros(k as nat)) =~= padded
            + zeros(k as nat));
        lemma_trim0_zeros(padded, k as nat);
        assert(padded.last() != '0') by {
            lemma_dec_last(t as nat);
            assert(padded.last() == spec_dec(t as nat).last());
            lemma_digit_char_zero((t % 10) as int);
        }
        lemma_trim0_noop(padded);
        assert(spec_frac_str(f as nat) == padded);
        assert(base + zeros((width - dl) as nat) + spec_dec(t as nat) =~= base + padded);
    }
}

/// Rendered digits are digits, and they denote the rendered number.
pub proof fn lemma_dec_digits(n: nat)
    ensures
        all_digits(spec_dec(n)),
        digits_val(spec_dec(n)) == n,
    decreases n,
{
    lemma_digit_char_val((n % 10) as int);
    if n < 10 {
        vstd::arithmetic::div_mod::lemma_small_mod(n, 10);
        assert(spec_dec(n) =~= seq![digit_char(n as int)]);
        assert(spec_dec(n).drop_last() =~= Seq::<char>::empty());
        assert(spec_dec(n).last() == digit_char(n as int));
        assert(digits_val(Seq::<char>::empty()) == 0);
        assert(spec_dec(n).len() == 1);
        assert(digits_val(spec_dec(n)) == digits_val(spec_dec(n).drop_last()) * 10 + digit_val(
            spec_dec(n).last(),
        ));
    } else {
        lemma_dec_digits(n / 10);
        assert(spec_dec(n).drop_last() =~= spec_dec(n / 10));
        assert(spec_dec(n).last() == digit_char((n % 10) as int));
        vstd::arithmetic::div_mod::lemma_fundamental_div_mod(n as int, 10);
        assert(forall|i: int|
            0 <= i < spec_dec(n).len() ==> is_digit(#[trigger] spec_dec(n)[i])) by {
            assert(forall|i: int|
                0 <= i < spec_dec(n).len() - 1 ==> spec_dec(n)[i] == spec_dec(n / 10)[i]);
        }
    }
}

/// Each digit character denotes its digit.
pub proof fn lemma_digit_char_val(d: int)
    requires
        0 <= d <= 9,
    ensures
        is_digit(digit_char(d)),
        digit_val(digit_char(d)) == d,
{
}

/// A run of zeros denotes nothing.
pub proof fn lemma_zeros_digits(m: nat)
    ensures
        all_digits(zeros(m)),
        digits_val(zeros(m)) == 0,
    decreases m,
{
    if m > 0 {
        lemma_zeros_digits((m - 1) as nat);
        assert(zeros(m).drop_last() =~= zeros((m - 1) as nat));
        assert(zeros(m).last() == '0');
        assert(forall|i: int| 0 <= i < zeros(m).len() ==> is_digit(#[trigger] zeros(m)[i]))
            by {
            assert(forall|i: int|
                0 <= i < zeros(m).len() - 1 ==> zeros(m)[i] == zeros((m - 1) as nat)[i]);
        }
    }
}

/// Leading zeros do not change the denoted number.
pub proof fn lemma_digits_val_leading_zeros(m: nat, s: Seq<char>)
    ensures
        digits_val(zeros(m) + s) == digits_val(s),
    decreases s.len(),
{
    if s.len() == 0 {
        assert(zeros(m) + s =~= zeros(m));
        lemma_zeros_digits(m);
    } else {
        lemma_digits_val_leading_zeros(m, s.drop_last());
        assert((zeros(m) + s).drop_last() =~= zeros(m) + s.drop_last());
        assert((zeros(m) + s).last() == s.last());
    }
}

/// Trimming trailing zeros divides the denoted number by the matching
/// power of ten, exactly.
pub proof fn lemma_trim0_digits(s: Seq<char>)
    requires
        all_digits(s),
    ensures
        all_digits(trim0(s)),
        trim0(s).len() <= s.len(),
        digits_val(trim0(s)) * pow10((s.len() - trim0(s).len()) as nat) == digits_val(s),
    decreases s.len(),
{
    if s.len() > 0 && s.last() == '0' {
        assert(all_digits(s.drop_last())) by {
            assert(forall|i: int|
                0 <= i < s.len() - 1 ==> #[trigger] s.drop_last()[i] == s[i]);
        }
        lemma_trim0_digits(s.drop_last());
        assert(digit_val('0') == 0);
        assert(digits_val(s) == digits_val(s.drop_last()) * 10);
        let k = (s.len() - 1 - trim0(s).len()) as nat;
        assert(digits_val(trim0(s)) * pow10(k) == digits_val(s.drop_last()));
        assert(digits_val(trim0(s)) * pow10((k + 1) as nat) == digits_val(s.drop_last()) * 10)
            by {
            assert(pow10((k + 1) as nat) == 10 * pow10(k));
            lemma_mul_is_associative(digits_val(trim0(s)), pow10(k), 10);
            lemma_mul_is_commutative(pow10(k), 10);
        }
    } else {
        assert(pow10(0) == 1);
    }
}

/// The characters a decimal rendering can hold.
pub open spec fn plain_decimal_char(c: char) -> bool {
    is_digit(c) || c == '-' || c == '.'
}

/// A rendering holds only digits, a minus sign and a dot — never a
/// separator of the query syntax around it.
pub proof fn lemma_format_micro_chars(v: int)
    requires
        -MICRO_MAGNITUDE_CAP < v < MICRO_MAGNITUDE_CAP,
    ensures
        forall|i: int|
            0 <= i < spec_format_micro(v).len() ==> plain_decimal_char(
                #[trigger] spec_format_micro(v)[i],
            ),
{
    let a = if v < 0 {
        -v
    } else {
        v
    };
    let whole = a / 1000000;
    let frac = a % 1000000;
    vstd::arithmetic::div_mod::lemma_fundamental_div_mod(a, 1000000);
    lemma_dec_digits(whole as nat);
    let sign: Seq<char> = if v < 0 {
        seq!['-']
    } else {
        Seq::<char>::empty()
    };
    let dw = spec_dec(whole as nat);
    if frac == 0 {
        assert(spec_format_micro(v) == sign + dw);
        assert forall|i: int|
            0 <= i < spec_format_micro(v).len() implies plain_decimal_char(
            #[trigger] spec_format_micro(v)[i],
        ) by {
            if i < sign.len() {
            } else {
                assert(spec_format_micro(v)[i] == dw[i - sign.len()]);
            }
        }
    } else {
        lemma_dec_digits(frac as nat);
        lemma_pow10_chain();
        lemma_dec_len_bound(frac as nat, 6);
        let df = spec_dec(frac as nat);
        let padded = zeros((6 - df.len()) as nat) + df;
        lemma_zeros_digits((6 - df.len()) as nat);
        lemma_zeros_len((6 - df.len()) as nat);
        assert(all_digits(padded)) by {
            assert(forall|i: int|
                0 <= i < padded.len() ==> is_digit(#[trigger] padded[i]) == (if i < 6
                    - df.len() {
                    is_digit(zeros((6 - df.len()) as nat)[i])
                } else {
                    is_digit(df[i - (6 - df.len())])
                }));
        }
        lemma_trim0_digits(padded);
        let fs = spec_frac_str(frac as nat);
        assert(all_digits(fs));
        assert(spec_format_micro(v) == sign + dw + seq!['.'] + fs);
        assert forall|i: int|
            0 <= i < spec_format_micro(v).len() implies plain_decimal_char(
            #[trigger] spec_format_micro(v)[i],
        ) by {
            let s = spec_format_micro(v);
            if i < sign.len() {
            } else if i < sign.len() + dw.len() {
                assert(s[i] == dw[i - sign.len()]);
            } else if i == sign.len() + dw.len() {
                assert(s[i] == '.');
            } else {
                assert(s[i] == fs[i - sign.len() - dw.len() - 1]);
            }
        }
    }
}

/// Rendering a microdegree value and parsing it back recovers it exactly:
/// the coordinates context a reply button carries survives the round trip.
pub proof fn lemma_format_micro_round_trip(v: int)
    requires
        -MICRO_MAGNITUDE_CAP < v < MICRO_MAGNITUDE_CAP,
    ensures
        spec_parse_micro(spec_format_micro(v)) == Some(v),
{
    let a = if v < 0 {
        -v
    } else {
        v
    };
    vstd::arithmetic::div_mod::lemma_fundamental_div_mod(a, 1000000);
    let whole = a / 1000000;
    let frac = a % 1000000;
    lemma_pow10_chain();
    lemma_dec_digits(whole as nat);
    assert(whole < 1000000000000);
    assert(pow10(12) == 1000000000000);
    lemma_dec_len_bound(whole as nat, 12);
    let s = spec_format_micro(v);
    let unsigned: Seq<char> = if frac == 0 {
        spec_dec(whole as nat)
    } else {
        spec_dec(whole as nat) + seq!['.'] + spec_frac_str(frac as nat)
    };
    lemma_parse_unsigned_value(whole as nat, frac as nat, unsigned);
    if v < 0 {
        assert(s =~= seq!['-'] + unsigned);
        assert(s[0] == '-');
        assert(s.skip(1) =~= unsigned);
        assert(spec_parse_micro(s) == Some(-(a as int)));
    } else {
        assert(s =~= unsigned);
        assert(unsigned[0] == spec_dec(whole as nat)[0]);
        assert(is_digit(unsigned[0]));
        assert(unsigned[0] != '-');
        assert(spec_parse_micro(s) == Some(a as int));
    }
}

/// The unsigned rendering of `whole` degrees and `frac` sixths-places
/// parses back to the microdegree value it came from.
proof fn lemma_parse_unsigned_value(whole: nat, frac: nat, unsigned: Seq<char>)
    requires
        frac < 1000000,
        1 <= spec_dec(whole).len() <= 12,
        unsigned == if frac == 0 {
            spec_dec(whole)
        } else {
            spec_dec(whole) + seq!['.'] + spec_frac_str(frac)
        },
    ensures
        spec_parse_unsigned_micro(unsigned) == Some((whole * 1000000 + frac) as int),
{
    lemma_pow10_chain();
    lemma_dec_digits(whole);
    let dw = spec_dec(whole);
    if frac == 0 {
        assert(crate::strutil::spec_find_char(unsigned, '.') is None) by {
            crate::strutil::lemma_find_char(unsigned, '.');
            match crate::strutil::spec_find_char(unsigned, '.') {
                Some(i) => {
                    assert(is_digit(unsigned[i]));
                },
                None => {},
            }
        }
        assert(spec_combine_parts(dw, Seq::<char>::empty()) == Some(
            digits_val(dw) * 1000000 + frac6(Seq::<char>::empty()),
        ));
        assert(frac6(Seq::<char>::empty()) == 0) by {
            assert(digits_val(Seq::<char>::empty()) == 0);
            lemma_pow10_pos(6);
            assert(digits_val(Seq::<char>::empty()) * pow10(6nat) == 0) by {
                lemma_mul_basics(pow10(6nat));
            }
        }
    } else {
        lemma_dec_digits(frac);
        lemma_dec_len_bound(frac, 6);
        let df = spec_dec(frac);
        let padded = zeros((6 - df.len()) as nat) + df;
        lemma_zeros_digits((6 - df.len()) as nat);
        lemma_zeros_len((6 - df.len()) as nat);
        assert(padded.len() == 6);
        assert(all_digits(padded)) by {
            assert(forall|i: int|
                0 <= i < padded.len() ==> is_digit(#[trigger] padded[i]) == (if i < 6
                    - df.len() {
                    is_digit(zeros((6 - df.len()) as nat)[i])
                } else {
                    is_digit(df[i - (6 - df.len())])
                }));
        }
        let fs = spec_frac_str(frac);
        assert(fs == trim0(padded));
        lemma_trim0_digits(padded);
        lemma_digits_val_leading_zeros((6 - df.len()) as nat, df);
        assert(digits_val(padded) == frac);
        // The dot is found right after the whole part.
        assert(unsigned.len() == dw.len() + 1 + fs.len());
        assert(unsigned[dw.len() as int] == '.');
        assert(forall|j: int| 0 <= j < dw.len() ==> unsigned[j] == dw[j]);
        assert(forall|j: int| 0 <= j < dw.len() ==> unsigned[j] != '.') by {
            assert(forall|j: int| 0 <= j < dw.len() ==> is_digit(#[trigger] dw[j]));
        }
        crate::strutil::lemma_find_char_at(unsigned, '.', dw.len() as int);
        assert(unsigned.take(dw.len() as int) =~= dw);
        assert(unsigned.skip(dw.len() as int + 1) =~= fs);
        assert(frac6(fs) == frac) by {
            assert(fs.len() <= 6);
            assert(frac6(fs) == digits_val(fs) * pow10((6 - fs.len()) as nat));
            assert(digits_val(fs) * pow10((padded.len() - fs.len()) as nat) == digits_val(
                padded,
            ));
        }
        assert(spec_combine_parts(dw, fs) == Some(digits_val(dw) * 1000000 + frac6(fs)));
    }
}

impl Coordinates {
    /// Renders a microdegree value as a decimal-degree string.
    pub fn format_micro(v: i64) -> (r: String)
        requires
            -MICRO_MAGNITUDE_CAP < v < MICRO_MAGNITUDE_CAP,
        ensures
            r@ == spec_format_micro(v as int),
    {
        let mut out = String::new();
        if v < 0 {
            out.append("-");
            proof {
                reveal_strlit("-");
                assert("-"@ =~= seq!['-']);
            }
        }
        let a: i64 = if v < 0 {
            -v
        } else {
            v
        };
        let au: u64 = a as u64;
        let whole: u64 = au / 1000000;
        let frac: u64 = au % 1000000;
        push_dec(&mut out, whole);
        if frac > 0 {
            out.append(".");
            proof {
                reveal_strlit(".");
                assert("."@ =~= seq!['.']);
            }
            push_frac6(&mut out, frac);
        }
        proof {
            let sign: Seq<char> = if v < 0 {
                seq!['-']
            } else {
                Seq::<char>::empty()
            };
            if frac == 0 {
                assert(out@ =~= sign + spec_dec(whole as nat));
            } else {
                assert(out@ =~= sign + spec_dec(whole as nat) + seq!['.'] + spec_frac_str(
                    frac as nat,
                ));
            }
        }
        out
    }
}

} // verus!
