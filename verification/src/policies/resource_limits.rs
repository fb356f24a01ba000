//! The resource limits policy: require requests and limits on every
//! container, bound CPU and memory quantities, and inject configured
//! defaults where they are missing.
//!
//! CPU quantities are parsed as exact signed decimals with an optional
//! exponent: negative values truncate to zero, unbounded ones clamp to
//! the machine's largest integer (the exponent saturates at a million
//! decimal places, far past anything the machine range can distinguish),
//! and anything outside the grammar is treated as unparseable and
//! skipped. Memory quantities carry an integer mantissa and a binary or
//! decimal suffix.

use vstd::prelude::*;

use crate::admission::{AdmissionRequest, AdmissionRequestView};
use crate::config::ResourceLimitsPolicy;
use crate::json::{jv_get, jv_view, Json, JsonValue};
use crate::patch::{patch_views, AddOperation, PatchOperation, PatchView};
use crate::policies::{
    container_name, get_containers, get_pod_spec, prefix_tokens, spec_container_name,
    spec_containers, spec_pod_spec, spec_prefix_tokens, PolicyOutput,
};
use crate::strutil::{dec_str, find_char, first_index_of, u64_to_string};

verus! {

pub open spec fn is_digit(c: char) -> bool {
    48 <= c as u32 <= 57
}

pub open spec fn digit_val(c: char) -> int {
    c as u32 - 48
}

pub open spec fn all_digits(s: Seq<char>) -> bool {
    forall|i: int| 0 <= i < s.len() ==> is_digit(#[trigger] s[i])
}

/// The value of a digit string, most significant digit first.
pub open spec fn digits_val(s: Seq<char>) -> int
    decreases s.len(),
{
    if s.len() == 0 {
        0
    } else {
        digits_val(s.drop_last()) * 10 + digit_val(s.last())
    }
}

pub open spec fn clamp_u64(v: int) -> u64 {
    if v > u64::MAX {
        u64::MAX
    } else if v < 0 {
        0
    } else {
        v as u64
    }
}

proof fn lemma_digits_val_nonneg(s: Seq<char>)
    requires
        all_digits(s),
    ensures
        digits_val(s) >= 0,
    decreases s.len(),
{
    if s.len() > 0 {
        assert(all_digits(s.drop_last())) by {
            assert(forall|i: int| 0 <= i < s.len() - 1 ==> s.drop_last()[i] == s[i]);
        }
        lemma_digits_val_nonneg(s.drop_last());
    }
}

/// The value of the digits of `s` with the bounded accumulator the parser
/// uses: the exact value, clamped into the machine range.
fn digits_value_clamped(s: &str) -> (r: Option<u64>)
    ensures
        match r {
            Some(v) => all_digits(s@) && v == clamp_u64(digits_val(s@)),
            None => !all_digits(s@),
        },
{
    let n = s.unicode_len();
    let mut acc: u64 = 0;
    let mut over = false;
    let mut i: usize = 0;
    while i < n
        invariant
            n == s@.len(),
            i <= n,
            forall|j: int| 0 <= j < i ==> is_digit(#[trigger] s@[j]),
            !over ==> digits_val(s@.take(i as int)) == acc,
            over ==> digits_val(s@.take(i as int)) > u64::MAX,
        decreases n - i,
    {
        let c = s.get_char(i);
        let cu = c as u32;
        if cu < 48 || cu > 57 {
            return None;
        }
        let d: u64 = (cu - 48) as u64;
        proof {
            assert(s@.take(i + 1).drop_last() =~= s@.take(i as int));
            assert(s@.take(i + 1).last() == s@[i as int]);
        }
        if !over {
            let next: u128 = acc as u128 * 10 + d as u128;
            if next > u64::MAX as u128 {
                over = true;
            } else {
                acc = next as u64;
            }
        } else {
            proof {
                let prev = digits_val(s@.take(i as int));
                assert(prev * 10 + digit_val(s@[i as int]) > u64::MAX) by {
                    assert(prev > u64::MAX);
                    assert(prev * 10 == prev + prev * 9);
                    assert(prev * 9 >= 0);
                    assert(digit_val(s@[i as int]) >= 0);
                }
            }
        }
        i += 1;
    }
    proof {
        assert(s@.take(n as int) =~= s@);
    }
    if over {
        Some(u64::MAX)
    } else {
        Some(acc)
    }
}

/// The integer and fraction digit parts of a decimal mantissa, split at
/// the first dot; no dot means an empty fraction.
pub open spec fn spec_dec_parts(s: Seq<char>) -> (Seq<char>, Seq<char>) {
    match first_index_of(s, '.') {
        Some(p) => (s.take(p), s.skip(p + 1)),
        None => (s, Seq::<char>::empty()),
    }
}

/// The first exponent marker, `e` or `E`, if any.
pub open spec fn first_exp_index(s: Seq<char>) -> Option<int>
    decreases s.len(),
{
    if s.len() == 0 {
        None
    } else if s[0] == 'e' || s[0] == 'E' {
        Some(0int)
    } else {
        match first_exp_index(s.drop_first()) {
            Some(i) => Some(i + 1),
            None => None,
        }
    }
}

proof fn lemma_first_exp_index_found(s: Seq<char>, i: int)
    requires
        0 <= i < s.len(),
        s[i] == 'e' || s[i] == 'E',
        forall|j: int| 0 <= j < i ==> s[j] != 'e' && s[j] != 'E',
    ensures
        first_exp_index(s) == Some(i),
    decreases i,
{
    if i > 0 {
        lemma_first_exp_index_found(s.drop_first(), i - 1);
    }
}

proof fn lemma_first_exp_index_none(s: Seq<char>)
    requires
        forall|j: int| 0 <= j < s.len() ==> s[j] != 'e' && s[j] != 'E',
    ensures
        first_exp_index(s) is None,
    decreases s.len(),
{
    if s.len() > 0 {
        lemma_first_exp_index_none(s.drop_first());
    }
}

/// A leading sign, stripped: whether it was a minus, and the rest.
pub open spec fn spec_strip_sign(s: Seq<char>) -> (bool, Seq<char>) {
    if s.len() > 0 && (s[0] == '+' || s[0] == '-') {
        (s[0] == '-', s.drop_first())
    } else {
        (false, s)
    }
}

/// The exponent's value: an optional sign, then at least one digit.
pub open spec fn spec_exp_val(s: Seq<char>) -> Option<int> {
    let eneg = spec_strip_sign(s).0;
    let digits = spec_strip_sign(s).1;
    if digits.len() > 0 && all_digits(digits) {
        Some(
            if eneg {
                -digits_val(digits)
            } else {
                digits_val(digits)
            },
        )
    } else {
        None
    }
}

/// The exponent, saturated at a million decimal places either way — far
/// beyond anything the machine range can distinguish from infinity or
/// zero.
pub open spec fn spec_eff_exp(e: int) -> int {
    if e > 1000000 {
        1000000
    } else if e < -1000000 {
        -1000000
    } else {
        e
    }
}

pub open spec fn pow10(n: nat) -> int
    decreases n,
{
    if n == 0 {
        1
    } else {
        10 * pow10((n - 1) as nat)
    }
}

proof fn lemma_pow10_pos(n: nat)
    ensures
        pow10(n) >= 1,
    decreases n,
{
    if n > 0 {
        lemma_pow10_pos((n - 1) as nat);
    }
}

proof fn lemma_pow10_increases(m: nat, n: nat)
    requires
        m <= n,
    ensures
        pow10(m) <= pow10(n),
    decreases n,
{
    if m < n {
        lemma_pow10_increases(m, (n - 1) as nat);
        lemma_pow10_pos((n - 1) as nat);
    }
}

/// The value of a digit string truncated at `point`: the digits left of
/// the point, zero-padded when the point runs past the end.
pub open spec fn trunc_val(digits: Seq<char>, point: int) -> int {
    if point <= 0 {
        0
    } else if point <= digits.len() {
        digits_val(digits.take(point))
    } else {
        digits_val(digits) * pow10((point - digits.len()) as nat)
    }
}

/// Twenty places past the end of the digits, the truncated value is out
/// of the machine range unless the digits are all zero.
proof fn lemma_trunc_val_big(digits: Seq<char>, point: int)
    requires
        all_digits(digits),
        point >= digits.len() + 20,
    ensures
        clamp_u64(trunc_val(digits, point)) == (
        if digits_val(digits) == 0 {
            0u64
        } else {
            u64::MAX
        }),
{
    let k = (point - digits.len()) as nat;
    lemma_pow10_increases(20, k);
    reveal_with_fuel(pow10, 21);
    assert(pow10(20) > u64::MAX);
    lemma_digits_val_nonneg(digits);
    if digits_val(digits) != 0 {
        assert(digits_val(digits) * pow10(k) >= pow10(k)) by (nonlinear_arith)
            requires
                digits_val(digits) >= 1,
                pow10(k) >= 0,
        ;
    }
}

/// A signed decimal with an optional exponent, its point shifted `shift`
/// places right and the result truncated to an unsigned machine integer:
/// negative values truncate to zero, unbounded ones clamp to the largest.
pub open spec fn spec_dec_value(s: Seq<char>, shift: int) -> Option<u64> {
    let neg = spec_strip_sign(s).0;
    let body = spec_strip_sign(s).1;
    let mant = match first_exp_index(body) {
        Some(ei) => body.take(ei),
        None => body,
    };
    let exp = match first_exp_index(body) {
        Some(ei) => spec_exp_val(body.skip(ei + 1)),
        None => Some(0int),
    };
    let d = spec_dec_parts(mant).0;
    let f = spec_dec_parts(mant).1;
    if all_digits(d) && all_digits(f) && d.len() + f.len() > 0 && exp is Some {
        if neg {
            Some(0u64)
        } else {
            Some(clamp_u64(trunc_val(d + f, d.len() + spec_eff_exp(exp->Some_0) + shift)))
        }
    } else {
        None
    }
}

/// CPU quantity in millicores: a `m`-suffixed value truncates to whole
/// millicores; a plain value is cores, shifted three places, truncated.
/// Signed and exponent decimal forms are accepted; negative quantities
/// truncate to zero.
pub open spec fn spec_parse_cpu(s: Seq<char>) -> Option<u64> {
    if s.len() > 0 && s.last() == 'm' {
        spec_dec_value(s.drop_last(), 0)
    } else {
        spec_dec_value(s, 3)
    }
}

/// The first exponent marker of a string slice.
fn find_exp(s: &str) -> (r: Option<usize>)
    ensures
        match r {
            Some(i) => i < s@.len() && first_exp_index(s@) == Some(i as int),
            None => first_exp_index(s@) is None,
        },
{
    let n = s.unicode_len();
    let mut i: usize = 0;
    while i < n
        invariant
            n == s@.len(),
            i <= n,
            forall|j: int| 0 <= j < i ==> s@[j] != 'e' && s@[j] != 'E',
        decreases n - i,
    {
        let c = s.get_char(i);
        if c == 'e' || c == 'E' {
            proof {
                lemma_first_exp_index_found(s@, i as int);
            }
            return Some(i);
        }
        i += 1;
    }
    proof {
        lemma_first_exp_index_none(s@);
    }
    None
}

fn pow10_u64(k: u64) -> (r: u64)
    requires
        k <= 19,
    ensures
        r as int == pow10(k as nat),
{
    let mut r: u64 = 1;
    let mut j: u64 = 0;
    while j < k
        invariant
            j <= k,
            k <= 19,
            r as int == pow10(j as nat),
        decreases k - j,
    {
        proof {
            reveal_with_fuel(pow10, 21);
            lemma_pow10_increases(j as nat + 1, 19);
        }
        r = r * 10;
        j = j + 1;
    }
    r
}

/// The exponent part: its sign and its magnitude, clamped into the
/// machine range.
fn parse_exp(es: &str) -> (r: Option<(bool, u64)>)
    ensures
        match r {
            Some(p) => spec_exp_val(es@) is Some && ({
                let e = spec_exp_val(es@)->Some_0;
                &&& (p.0 ==> e <= 0)
                &&& (!p.0 ==> e >= 0)
                &&& p.1 == clamp_u64(
                    if p.0 {
                        -e
                    } else {
                        e
                    },
                )
            }),
            None => spec_exp_val(es@) is None,
        },
{
    let n = es.unicode_len();
    let mut eneg = false;
    let mut start: usize = 0;
    if n > 0 {
        let c0 = es.get_char(0);
        if c0 == '+' || c0 == '-' {
            eneg = c0 == '-';
            start = 1;
        }
    }
    let digits = es.substring_char(start, n);
    proof {
        assert(digits@ =~= spec_strip_sign(es@).1);
        assert(eneg == spec_strip_sign(es@).0);
    }
    if digits.unicode_len() == 0 {
        return None;
    }
    match digits_value_clamped(digits) {
        Some(v) => {
            proof {
                lemma_digits_val_nonneg(digits@);
            }
            Some((eneg, v))
        },
        None => None,
    }
}

/// The body of a decimal quantity, truncated after shifting the point
/// `shift` places right.
#[verifier::rlimit(100)]
fn parse_dec_value(s: &str, shift: u64) -> (r: Option<u64>)
    requires
        shift <= 3,
    ensures
        r == spec_dec_value(s@, shift as int),
{
    let n = s.unicode_len();
    let mut neg = false;
    let mut start: usize = 0;
    if n > 0 {
        let c0 = s.get_char(0);
        if c0 == '+' || c0 == '-' {
            neg = c0 == '-';
            start = 1;
        }
    }
    let body = s.substring_char(start, n);
    proof {
        assert(body@ =~= spec_strip_sign(s@).1);
        assert(neg == spec_strip_sign(s@).0);
    }
    let blen = body.unicode_len();

    let ei_opt = find_exp(body);
    let mant: &str = match ei_opt {
        Some(ei) => body.substring_char(0, ei),
        None => body,
    };
    proof {
        match first_exp_index(body@) {
            Some(gi) => {
                assert(mant@ =~= body@.take(gi));
            },
            None => {},
        }
    }

    let (exp_neg, exp_mag): (bool, u64) = match ei_opt {
        Some(ei) => {
            let es = body.substring_char(ei + 1, blen);
            proof {
                assert(es@ =~= body@.skip(ei + 1));
            }
            match parse_exp(es) {
                Some(p) => p,
                None => {
                    return None;
                },
            }
        },
        None => (false, 0),
    };
    let ghost g_exp: int = match first_exp_index(body@) {
        Some(gi) => spec_exp_val(body@.skip(gi + 1))->Some_0,
        None => 0,
    };
    proof {
        if exp_neg {
            assert(g_exp <= 0 && exp_mag == clamp_u64(-g_exp));
        } else {
            assert(g_exp >= 0 && exp_mag == clamp_u64(g_exp));
        }
    }

    let mlen = mant.unicode_len();
    let (d_part, f_part): (&str, &str) = match find_char(mant, '.') {
        Some(p) => (mant.substring_char(0, p), mant.substring_char(p + 1, mlen)),
        None => (mant, ""),
    };
    proof {
        reveal_strlit("");
        assert(d_part@ =~= spec_dec_parts(mant@).0);
        assert(f_part@ =~= spec_dec_parts(mant@).1);
    }
    let d_len = d_part.unicode_len();
    let f_len = f_part.unicode_len();
    if d_len == 0 && f_len == 0 {
        return None;
    }
    let d_ok = match digits_value_clamped(d_part) {
        Some(_) => true,
        None => false,
    };
    if !d_ok {
        return None;
    }
    let f_ok = match digits_value_clamped(f_part) {
        Some(_) => true,
        None => false,
    };
    if !f_ok {
        return None;
    }

    if neg {
        return Some(0);
    }

    let mut digits = String::from_str(d_part);
    digits.append(f_part);
    proof {
        assert(digits@ =~= d_part@ + f_part@);
        assert(all_digits(digits@)) by {
            assert(forall|j: int| 0 <= j < d_part@.len() ==> digits@[j] == d_part@[j]);
            assert(forall|j: int|
                d_part@.len() <= j < digits@.len() ==> digits@[j] == f_part@[j - d_part@.len()]);
        }
    }

    let eff_mag: u64 = if exp_mag > 1000000 {
        1000000
    } else {
        exp_mag
    };
    let pt: i128 = d_len as i128 + shift as i128 + (
    if exp_neg {
        -(eff_mag as i128)
    } else {
        eff_mag as i128
    });
    let ghost g_point: int = d_len as int + spec_eff_exp(g_exp) + shift as int;
    proof {
        if exp_neg {
            assert(spec_eff_exp(g_exp) == -(eff_mag as int));
        } else {
            assert(spec_eff_exp(g_exp) == eff_mag as int);
        }
        assert(pt as int == g_point);
    }
    let total: usize = d_len + f_len;
    proof {
        assert(digits@.len() == total);
        assert(pt <= digits@.len() + 1000003);
    }
    let r = trunc_value_clamped(digits.as_str(), pt);
    proof {
        assert(spec_dec_value(s@, shift as int) == Some(clamp_u64(trunc_val(digits@, g_point))));
    }
    Some(r)
}

/// The truncated digit value at `point`, clamped into the machine range.
#[verifier::rlimit(60)]
fn trunc_value_clamped(digits: &str, point: i128) -> (r: u64)
    requires
        all_digits(digits@),
        point <= digits@.len() + 1000003,
    ensures
        r == clamp_u64(trunc_val(digits@, point as int)),
{
    let n = digits.unicode_len();
    if point <= 0 {
        proof {
            assert(trunc_val(digits@, point as int) == 0);
        }
        0
    } else if point <= n as i128 {
        let ptu: usize = point as usize;
        let head = digits.substring_char(0, ptu);
        proof {
            assert(head@ =~= digits@.take(point as int));
            assert(all_digits(head@)) by {
                assert(forall|j: int| 0 <= j < head@.len() ==> head@[j] == digits@[j]);
            }
            assert(trunc_val(digits@, point as int) == digits_val(head@));
        }
        match digits_value_clamped(head) {
            Some(v) => v,
            None => 0,
        }
    } else {
        let k128: i128 = point - n as i128;
        let k: u64 = k128 as u64;
        proof {
            assert(1 <= k128 <= 1000003);
            assert(k as int == point - digits@.len());
        }
        let v = match digits_value_clamped(digits) {
            Some(v) => v,
            None => 0,
        };
        proof {
            lemma_digits_val_nonneg(digits@);
        }
        if v == 0 {
            proof {
                assert(digits_val(digits@) == 0);
                assert(trunc_val(digits@, point as int) == 0);
            }
            0
        } else if k >= 20 {
            proof {
                assert(digits_val(digits@) != 0);
                lemma_trunc_val_big(digits@, point as int);
            }
            u64::MAX
        } else {
            let p = pow10_u64(k);
            proof {
                lemma_pow10_pos(k as nat);
            }
            let r = match v.checked_mul(p) {
                Some(x) => x,
                None => u64::MAX,
            };
            proof {
                let dv = digits_val(digits@);
                let prod = dv * pow10(k as nat);
                if dv > u64::MAX {
                    assert(v == u64::MAX);
                    assert(prod >= dv) by (nonlinear_arith)
                        requires
                            dv >= 0,
                            pow10(k as nat) >= 1,
                            prod == dv * pow10(k as nat),
                    ;
                    assert(p >= 10) by {
                        reveal_with_fuel(pow10, 2);
                        lemma_pow10_increases(1, k as nat);
                    }
                    assert(v as int * p as int >= v as int * 10) by (nonlinear_arith)
                        requires
                            p >= 10,
                            v >= 0,
                    ;
                    assert(v as int * p as int > u64::MAX);
                } else {
                    assert(v as int == dv);
                    assert(prod == v as int * p as int);
                }
                assert(trunc_val(digits@, point as int) == prod);
                assert(r == clamp_u64(prod));
            }
            r
        }
    }
}

/// Parses a CPU quantity to millicores; anything outside the signed
/// decimal grammar (with optional exponent) yields nothing.
pub fn parse_cpu_millicores(value: &str) -> (r: Option<u64>)
    ensures
        r == spec_parse_cpu(value@),
{
    let n = value.unicode_len();
    if n > 0 && value.get_char(n - 1) == 'm' {
        let body = value.substring_char(0, n - 1);
        proof {
            assert(body@ =~= value@.drop_last());
        }
        parse_dec_value(body, 0)
    } else {
        parse_dec_value(value, 3)
    }
}

/// What a strict unsigned parse accepts: an optional plus sign, then
/// digits whose value fits the machine range.
pub open spec fn spec_parse_u64(s: Seq<char>) -> Option<int> {
    let digits = if s.len() > 0 && s[0] == '+' {
        s.drop_first()
    } else {
        s
    };
    if digits.len() > 0 && all_digits(digits) && digits_val(digits) <= u64::MAX {
        Some(digits_val(digits))
    } else {
        None
    }
}

fn parse_u64_str(s: &str) -> (r: Option<u64>)
    ensures
        match r {
            Some(v) => spec_parse_u64(s@) == Some(v as int),
            None => spec_parse_u64(s@) is None,
        },
{
    let n = s.unicode_len();
    let start: usize = if n > 0 && s.get_char(0) == '+' {
        1
    } else {
        0
    };
    if n == start {
        return None;
    }
    let ghost digits = if s@.len() > 0 && s@[0] == '+' {
        s@.drop_first()
    } else {
        s@
    };
    let mut acc: u64 = 0;
    let mut over = false;
    let mut i: usize = start;
    while i < n
        invariant
            n == s@.len(),
            start <= i <= n,
            start == 0 || start == 1,
            start == 1 ==> n > 0 && s@[0] == '+',
            start == 0 ==> !(s@.len() > 0 && s@[0] == '+'),
            digits == (if s@.len() > 0 && s@[0] == '+' {
                s@.drop_first()
            } else {
                s@
            }),
            forall|j: int| start <= j < i ==> is_digit(#[trigger] s@[j]),
            !over ==> digits_val(s@.subrange(start as int, i as int)) == acc,
            over ==> digits_val(s@.subrange(start as int, i as int)) > u64::MAX,
        decreases n - i,
    {
        let c = s.get_char(i);
        let cu = c as u32;
        if cu < 48 || cu > 57 {
            proof {
                if s@.len() > 0 && s@[0] == '+' {
                    assert(digits[i - 1] == s@[i as int]);
                } else {
                    assert(digits[i as int] == s@[i as int]);
                }
                assert(!all_digits(digits));
            }
            return None;
        }
        let d: u64 = (cu - 48) as u64;
        proof {
            assert(s@.subrange(start as int, i + 1).drop_last() =~= s@.subrange(
                start as int,
                i as int,
            ));
            assert(s@.subrange(start as int, i + 1).last() == s@[i as int]);
        }
        if !over {
            let next: u128 = acc as u128 * 10 + d as u128;
            if next > u64::MAX as u128 {
                over = true;
            } else {
                acc = next as u64;
            }
        } else {
            proof {
                let prev = digits_val(s@.subrange(start as int, i as int));
                assert(prev * 10 + digit_val(s@[i as int]) > u64::MAX) by {
                    assert(prev > u64::MAX);
                    assert(prev * 10 == prev + prev * 9);
                    assert(prev * 9 >= 0);
                    assert(digit_val(s@[i as int]) >= 0);
                }
            }
        }
        i += 1;
    }
    proof {
        assert(digits =~= s@.subrange(start as int, n as int));
        assert(forall|j: int| 0 <= j < digits.len() ==> is_digit(#[trigger] digits[j]));
    }
    if over {
        None
    } else {
        Some(acc)
    }
}

/// The numeric base of a memory quantity and its byte multiplier, by its
/// suffix: binary suffixes scale by powers of 1024, decimal ones by
/// powers of 1000, none means plain bytes.
pub open spec fn ends_with(s: Seq<char>, suffix: Seq<char>) -> bool {
    s.len() >= suffix.len() && s.skip(s.len() - suffix.len()) == suffix
}

pub open spec fn spec_mem_suffix(s: Seq<char>) -> (Seq<char>, int) {
    if ends_with(s, "Gi"@) {
        (s.take(s.len() - 2), 1024int * 1024 * 1024)
    } else if ends_with(s, "Mi"@) {
        (s.take(s.len() - 2), 1024int * 1024)
    } else if ends_with(s, "Ki"@) {
        (s.take(s.len() - 2), 1024)
    } else if ends_with(s, "G"@) {
        (s.take(s.len() - 1), 1000000000)
    } else if ends_with(s, "M"@) {
        (s.take(s.len() - 1), 1000000)
    } else if ends_with(s, "k"@) {
        (s.take(s.len() - 1), 1000)
    } else {
        (s, 1)
    }
}

/// Memory quantity in bytes; an overflowing product or anything outside
/// the grammar yields nothing.
pub open spec fn spec_parse_memory(s: Seq<char>) -> Option<u64> {
    let base = spec_mem_suffix(s).0;
    let mult = spec_mem_suffix(s).1;
    match spec_parse_u64(base) {
        Some(v) => if v * mult <= u64::MAX {
            Some((v * mult) as u64)
        } else {
            None
        },
        None => None,
    }
}

proof fn lemma_not_ends_with_2(s: Seq<char>, suffix: Seq<char>)
    requires
        suffix.len() == 2,
        s.len() >= 2 ==> s[s.len() - 2] != suffix[0] || s[s.len() - 1] != suffix[1],
    ensures
        !ends_with(s, suffix),
{
    if s.len() >= 2 && ends_with(s, suffix) {
        assert(s.skip(s.len() - 2)[0] == s[s.len() - 2]);
        assert(s.skip(s.len() - 2)[1] == s[s.len() - 1]);
    }
}

proof fn lemma_not_ends_with_1(s: Seq<char>, suffix: Seq<char>)
    requires
        suffix.len() == 1,
        s.len() >= 1 ==> s[s.len() - 1] != suffix[0],
    ensures
        !ends_with(s, suffix),
{
    if s.len() >= 1 && ends_with(s, suffix) {
        assert(s.skip(s.len() - 1)[0] == s[s.len() - 1]);
    }
}

fn mem_base_and_mult<'a>(s: &'a str) -> (r: (&'a str, u64))
    ensures
        r.0@ == spec_mem_suffix(s@).0,
        r.1 as int == spec_mem_suffix(s@).1,
        r.1 >= 1,
{
    proof {
        reveal_strlit("Gi");
        reveal_strlit("Mi");
        reveal_strlit("Ki");
        reveal_strlit("G");
        reveal_strlit("M");
        reveal_strlit("k");
    }
    let n = s.unicode_len();
    if n >= 2 && s.get_char(n - 2) == 'G' && s.get_char(n - 1) == 'i' {
        proof {
            assert(s@.skip(s@.len() - 2) =~= "Gi"@);
        }
        (s.substring_char(0, n - 2), 1024 * 1024 * 1024)
    } else if n >= 2 && s.get_char(n - 2) == 'M' && s.get_char(n - 1) == 'i' {
        proof {
            assert(s@.skip(s@.len() - 2) =~= "Mi"@);
            lemma_not_ends_with_2(s@, "Gi"@);
        }
        (s.substring_char(0, n - 2), 1024 * 1024)
    } else if n >= 2 && s.get_char(n - 2) == 'K' && s.get_char(n - 1) == 'i' {
        proof {
            assert(s@.skip(s@.len() - 2) =~= "Ki"@);
            lemma_not_ends_with_2(s@, "Gi"@);
            lemma_not_ends_with_2(s@, "Mi"@);
        }
        (s.substring_char(0, n - 2), 1024)
    } else if n >= 1 && s.get_char(n - 1) == 'G' {
        proof {
            assert(s@.skip(s@.len() - 1) =~= "G"@);
            lemma_not_ends_with_2(s@, "Gi"@);
            lemma_not_ends_with_2(s@, "Mi"@);
            lemma_not_ends_with_2(s@, "Ki"@);
        }
        (s.substring_char(0, n - 1), 1000000000)
    } else if n >= 1 && s.get_char(n - 1) == 'M' {
        proof {
            assert(s@.skip(s@.len() - 1) =~= "M"@);
            lemma_not_ends_with_2(s@, "Gi"@);
            lemma_not_ends_with_2(s@, "Mi"@);
            lemma_not_ends_with_2(s@, "Ki"@);
            lemma_not_ends_with_1(s@, "G"@);
        }
        (s.substring_char(0, n - 1), 1000000)
    } else if n >= 1 && s.get_char(n - 1) == 'k' {
        proof {
            assert(s@.skip(s@.len() - 1) =~= "k"@);
            lemma_not_ends_with_2(s@, "Gi"@);
            lemma_not_ends_with_2(s@, "Mi"@);
            lemma_not_ends_with_2(s@, "Ki"@);
            lemma_not_ends_with_1(s@, "G"@);
            lemma_not_ends_with_1(s@, "M"@);
        }
        (s.substring_char(0, n - 1), 1000)
    } else {
        proof {
            lemma_not_ends_with_2(s@, "Gi"@);
            lemma_not_ends_with_2(s@, "Mi"@);
            lemma_not_ends_with_2(s@, "Ki"@);
            lemma_not_ends_with_1(s@, "G"@);
            lemma_not_ends_with_1(s@, "M"@);
            lemma_not_ends_with_1(s@, "k"@);
        }
        (s, 1)
    }
}

/// Parses a memory quantity to bytes.
pub fn parse_memory_bytes(value: &str) -> (r: Option<u64>)
    ensures
        r == spec_parse_memory(value@),
{
    let (base, mult) = mem_base_and_mult(value);
    match parse_u64_str(base) {
        Some(v) => v.checked_mul(mult),
        None => None,
    }
}

/// The `resources` record of a container, if any.
pub open spec fn spec_resources(c: Json) -> Option<Json> {
    jv_get(c, "resources"@)
}

/// Whether `parent[key]` is a non-empty object.
pub open spec fn spec_has_nonempty_obj(parent: Option<Json>, key: Seq<char>) -> bool {
    match parent {
        Some(r) => match jv_get(r, key) {
            Some(Json::Obj(f)) => f.len() > 0,
            _ => false,
        },
        None => false,
    }
}

/// Which of requests and limits a violation names.
pub open spec fn spec_missing_kind(has_req: bool, has_lim: bool) -> Seq<char> {
    if !has_req && !has_lim {
        "requests and limits"@
    } else if !has_req {
        "requests"@
    } else {
        "limits"@
    }
}

pub open spec fn msg_missing_resources(name: Seq<char>, missing: Seq<char>) -> Seq<char> {
    "container '"@ + name + "' missing resource "@ + missing
}

/// One violation when requests or limits are absent and injection will
/// not supply them.
pub open spec fn spec_rl_missing_violations(
    cfg: ResourceLimitsPolicy,
    c: Json,
    mutating: bool,
) -> Seq<Seq<char>> {
    let r = spec_resources(c);
    let has_req = spec_has_nonempty_obj(r, "requests"@);
    let has_lim = spec_has_nonempty_obj(r, "limits"@);
    if (!has_req || !has_lim) && !(mutating && cfg.inject_defaults) {
        seq![msg_missing_resources(spec_container_name(c), spec_missing_kind(has_req, has_lim))]
    } else {
        Seq::empty()
    }
}

/// The string at `resources[section][key]`, if any.
pub open spec fn spec_quantity_str(r: Option<Json>, section: Seq<char>, key: Seq<char>) -> Option<
    Seq<char>,
> {
    match r {
        Some(res) => match jv_get(res, section) {
            Some(sec) => match jv_get(sec, key) {
                Some(Json::Str(s)) => Some(s),
                _ => None,
            },
            None => None,
        },
        None => None,
    }
}

pub open spec fn msg_cpu_exceeds(
    name: Seq<char>,
    section: Seq<char>,
    raw: Seq<char>,
    millis: u64,
    max: u64,
) -> Seq<char> {
    "container '"@ + name + "' "@ + section + " cpu '"@ + raw + "' ("@ + dec_str(millis as int)
        + "m) exceeds maximum allowed "@ + dec_str(max as int) + "m"@
}

/// The CPU bound check of one section; unparseable values are skipped.
pub open spec fn spec_cpu_violation(
    max: u64,
    name: Seq<char>,
    r: Option<Json>,
    section: Seq<char>,
) -> Seq<Seq<char>> {
    match spec_quantity_str(r, section, "cpu"@) {
        Some(raw) => match spec_parse_cpu(raw) {
            Some(millis) => if millis > max {
                seq![msg_cpu_exceeds(name, section, raw, millis, max)]
            } else {
                Seq::empty()
            },
            None => Seq::empty(),
        },
        None => Seq::empty(),
    }
}

/// The configured memory bound in bytes, clamped into the machine range.
pub open spec fn spec_mem_limit_bytes(mb: u64) -> u64 {
    clamp_u64(mb * 1048576)
}

pub open spec fn msg_mem_exceeds(
    name: Seq<char>,
    section: Seq<char>,
    raw: Seq<char>,
    mib: u64,
    max_mb: u64,
) -> Seq<char> {
    "container '"@ + name + "' "@ + section + " memory '"@ + raw + "' ("@ + dec_str(mib as int)
        + " Mi) exceeds maximum allowed "@ + dec_str(max_mb as int) + " Mi"@
}

/// The memory bound check of one section; unparseable values are skipped.
pub open spec fn spec_mem_violation(
    max_mb: u64,
    name: Seq<char>,
    r: Option<Json>,
    section: Seq<char>,
) -> Seq<Seq<char>> {
    match spec_quantity_str(r, section, "memory"@) {
        Some(raw) => match spec_parse_memory(raw) {
            Some(bytes) => if bytes > spec_mem_limit_bytes(max_mb) {
                seq![msg_mem_exceeds(name, section, raw, bytes / 1048576, max_mb)]
            } else {
                Seq::empty()
            },
            None => Seq::empty(),
        },
        None => Seq::empty(),
    }
}

/// The violations of one container under this policy.
pub open spec fn spec_rl_container_violations(
    cfg: ResourceLimitsPolicy,
    c: Json,
    mutating: bool,
) -> Seq<Seq<char>> {
    let name = spec_container_name(c);
    let r = spec_resources(c);
    let cpu_part: Seq<Seq<char>> = match cfg.max_cpu_millicores {
        Some(max) => spec_cpu_violation(max, name, r, "requests"@) + spec_cpu_violation(
            max,
            name,
            r,
            "limits"@,
        ),
        None => Seq::empty(),
    };
    let mem_part: Seq<Seq<char>> = match cfg.max_memory_mb {
        Some(mb) => spec_mem_violation(mb, name, r, "requests"@) + spec_mem_violation(
            mb,
            name,
            r,
            "limits"@,
        ),
        None => Seq::empty(),
    };
    spec_rl_missing_violations(cfg, c, mutating) + cpu_part + mem_part
}

pub open spec fn spec_rl_violations_of(
    cfg: ResourceLimitsPolicy,
    containers: Seq<Json>,
    mutating: bool,
) -> Seq<Seq<char>>
    decreases containers.len(),
{
    if containers.len() == 0 {
        Seq::empty()
    } else {
        spec_rl_violations_of(cfg, containers.drop_last(), mutating)
            + spec_rl_container_violations(cfg, containers.last(), mutating)
    }
}

/// The violations of the whole request under this policy.
pub open spec fn spec_rl_violations(
    cfg: ResourceLimitsPolicy,
    req: AdmissionRequestView,
    mutating: bool,
) -> Seq<Seq<char>> {
    match req.object {
        Some(obj) => match spec_pod_spec(obj.data, req.kind) {
            Some(ps) => spec_rl_violations_of(cfg, spec_containers(ps), mutating),
            None => Seq::empty(),
        },
        None => Seq::empty(),
    }
}

/// The default `requests` record.
pub open spec fn spec_requests_value(cfg: ResourceLimitsPolicy) -> Json {
    Json::Obj(
        seq![
            ("cpu"@, Json::Str(cfg.default_cpu_request@)),
            ("memory"@, Json::Str(cfg.default_memory_request@)),
        ],
    )
}

/// The default `limits` record.
pub open spec fn spec_limits_value(cfg: ResourceLimitsPolicy) -> Json {
    Json::Obj(
        seq![
            ("cpu"@, Json::Str(cfg.default_cpu_limit@)),
            ("memory"@, Json::Str(cfg.default_memory_limit@)),
        ],
    )
}

/// The default `resources` record, both sections populated.
pub open spec fn spec_resources_value(cfg: ResourceLimitsPolicy) -> Json {
    Json::Obj(
        seq![("requests"@, spec_requests_value(cfg)), ("limits"@, spec_limits_value(cfg))],
    )
}

/// The patch path under container `i`.
pub open spec fn spec_container_path(prefix: Seq<Seq<char>>, i: int, rest: Seq<Seq<char>>) -> Seq<
    Seq<char>,
> {
    prefix + seq!["containers"@, dec_str(i)] + rest
}

/// The patches injecting defaults into one container: a single patch when
/// `resources` is absent or empty, else the minimal additions per section.
pub open spec fn spec_rl_container_patches(
    cfg: ResourceLimitsPolicy,
    c: Json,
    prefix: Seq<Seq<char>>,
    i: int,
) -> Seq<PatchView> {
    let r = spec_resources(c);
    let has_resources = match r {
        Some(Json::Obj(f)) => f.len() > 0,
        _ => false,
    };
    if !has_resources {
        seq![
            PatchView {
                path: spec_container_path(prefix, i, seq!["resources"@]),
                value: spec_resources_value(cfg),
            },
        ]
    } else {
        let res = r->Some_0;
        let req_part: Seq<PatchView> = match jv_get(res, "requests"@) {
            Some(requests) => {
                let cpu: Seq<PatchView> = if jv_get(requests, "cpu"@) is None {
                    seq![
                        PatchView {
                            path: spec_container_path(
                                prefix,
                                i,
                                seq!["resources"@, "requests"@, "cpu"@],
                            ),
                            value: Json::Str(cfg.default_cpu_request@),
                        },
                    ]
                } else {
                    Seq::empty()
                };
                let mem: Seq<PatchView> = if jv_get(requests, "memory"@) is None {
                    seq![
                        PatchView {
                            path: spec_container_path(
                                prefix,
                                i,
                                seq!["resources"@, "requests"@, "memory"@],
                            ),
                            value: Json::Str(cfg.default_memory_request@),
                        },
                    ]
                } else {
                    Seq::empty()
                };
                cpu + mem
            },
            None => seq![
                PatchView {
                    path: spec_container_path(prefix, i, seq!["resources"@, "requests"@]),
                    value: spec_requests_value(cfg),
                },
            ],
        };
        let lim_part: Seq<PatchView> = match jv_get(res, "limits"@) {
            Some(limits) => {
                let cpu: Seq<PatchView> = if jv_get(limits, "cpu"@) is None {
                    seq![
                        PatchView {
                            path: spec_container_path(
                                prefix,
                                i,
                                seq!["resources"@, "limits"@, "cpu"@],
                            ),
                            value: Json::Str(cfg.default_cpu_limit@),
                        },
                    ]
                } else {
                    Seq::empty()
                };
                let mem: Seq<PatchView> = if jv_get(limits, "memory"@) is None {
                    seq![
                        PatchView {
                            path: spec_container_path(
                                prefix,
                                i,
                                seq!["resources"@, "limits"@, "memory"@],
                            ),
                            value: Json::Str(cfg.default_memory_limit@),
                        },
                    ]
                } else {
                    Seq::empty()
                };
                cpu + mem
            },
            None => seq![
                PatchView {
                    path: spec_container_path(prefix, i, seq!["resources"@, "limits"@]),
                    value: spec_limits_value(cfg),
                },
            ],
        };
        req_part + lim_part
    }
}

/// A container whose resources already carry `cpu` and `memory` in both
/// requests and limits, so injection has nothing to add.
pub open spec fn spec_rl_satisfied(c: Json) -> bool {
    match spec_resources(c) {
        Some(Json::Obj(f)) => f.len() > 0 && {
            let res = spec_resources(c)->Some_0;
            &&& match jv_get(res, "requests"@) {
                Some(req) => jv_get(req, "cpu"@) is Some && jv_get(req, "memory"@) is Some,
                None => false,
            }
            &&& match jv_get(res, "limits"@) {
                Some(lim) => jv_get(lim, "cpu"@) is Some && jv_get(lim, "memory"@) is Some,
                None => false,
            }
        },
        _ => false,
    }
}

pub open spec fn spec_rl_patches_of(
    cfg: ResourceLimitsPolicy,
    containers: Seq<Json>,
    prefix: Seq<Seq<char>>,
) -> Seq<PatchView>
    decreases containers.len(),
{
    if containers.len() == 0 {
        Seq::empty()
    } else {
        spec_rl_patches_of(cfg, containers.drop_last(), prefix) + spec_rl_container_patches(
            cfg,
            containers.last(),
            prefix,
            containers.len() - 1,
        )
    }
}

/// The patches of the whole request under this policy. They accumulate
/// whenever injection is configured; the engine discards them on the
/// validating path.
pub open spec fn spec_rl_patches(cfg: ResourceLimitsPolicy, req: AdmissionRequestView) -> Seq<
    PatchView,
> {
    match req.object {
        Some(obj) => match spec_pod_spec(obj.data, req.kind) {
            Some(ps) => if cfg.inject_defaults {
                spec_rl_patches_of(cfg, spec_containers(ps), spec_prefix_tokens(req.kind))
            } else {
                Seq::empty()
            },
            None => Seq::empty(),
        },
        None => Seq::empty(),
    }
}

/// The view of an optional borrowed JSON value.
pub open spec fn opt_view(v: Option<&JsonValue>) -> Option<Json> {
    match v {
        Some(x) => Some(jv_view(*x)),
        None => None,
    }
}

fn obj_nonempty(parent: Option<&JsonValue>, key: &str) -> (r: bool)
    ensures
        r == spec_has_nonempty_obj(opt_view(parent), key@),
{
    match parent {
        Some(p) => match p.get(key) {
            Some(v) => match v.as_object() {
                Some(f) => f.len() > 0,
                None => false,
            },
            None => false,
        },
        None => false,
    }
}

fn quantity_str<'a>(resources: Option<&'a JsonValue>, section: &str, key: &str) -> (r: Option<
    &'a str,
>)
    ensures
        match r {
            Some(s) => spec_quantity_str(opt_view(resources), section@, key@) == Some(s@),
            None => spec_quantity_str(opt_view(resources), section@, key@) is None,
        },
{
    match resources {
        Some(res) => match res.get(section) {
            Some(sec) => match sec.get(key) {
                Some(v) => v.as_str(),
                None => None,
            },
            None => None,
        },
        None => None,
    }
}

fn cpu_violation(max: u64, name: &str, resources: Option<&JsonValue>, section: &str) -> (r: Option<
    String,
>)
    ensures
        match r {
            Some(m) => spec_cpu_violation(max, name@, opt_view(resources), section@) == seq![m@],
            None => spec_cpu_violation(max, name@, opt_view(resources), section@)
                == Seq::<Seq<char>>::empty(),
        },
{
    match quantity_str(resources, section, "cpu") {
        Some(raw) => match parse_cpu_millicores(raw) {
            Some(millis) => if millis > max {
                let mut m = String::from_str("container '");
                m.append(name);
                m.append("' ");
                m.append(section);
                m.append(" cpu '");
                m.append(raw);
                m.append("' (");
                let millis_str = u64_to_string(millis);
                m.append(millis_str.as_str());
                m.append("m) exceeds maximum allowed ");
                let max_str = u64_to_string(max);
                m.append(max_str.as_str());
                m.append("m");
                proof {
                    assert(m@ =~= msg_cpu_exceeds(name@, section@, raw@, millis, max));
                }
                Some(m)
            } else {
                None
            },
            None => None,
        },
        None => None,
    }
}

fn mem_violation(max_mb: u64, name: &str, resources: Option<&JsonValue>, section: &str) -> (r:
    Option<String>)
    ensures
        match r {
            Some(m) => spec_mem_violation(max_mb, name@, opt_view(resources), section@) == seq![
                m@,
            ],
            None => spec_mem_violation(max_mb, name@, opt_view(resources), section@)
                == Seq::<Seq<char>>::empty(),
        },
{
    let max_bytes: u64 = match max_mb.checked_mul(1048576) {
        Some(v) => v,
        None => u64::MAX,
    };
    proof {
        assert(max_bytes == spec_mem_limit_bytes(max_mb));
    }
    match quantity_str(resources, section, "memory") {
        Some(raw) => match parse_memory_bytes(raw) {
            Some(bytes) => if bytes > max_bytes {
                let mut m = String::from_str("container '");
                m.append(name);
                m.append("' ");
                m.append(section);
                m.append(" memory '");
                m.append(raw);
                m.append("' (");
                let mib_str = u64_to_string(bytes / 1048576);
                m.append(mib_str.as_str());
                m.append(" Mi) exceeds maximum allowed ");
                let max_str = u64_to_string(max_mb);
                m.append(max_str.as_str());
                m.append(" Mi");
                proof {
                    assert(m@ =~= msg_mem_exceeds(name@, section@, raw@, bytes / 1048576, max_mb));
                }
                Some(m)
            } else {
                None
            },
            None => None,
        },
        None => None,
    }
}

fn requests_value(config: &ResourceLimitsPolicy) -> (r: JsonValue)
    ensures
        r@ == spec_requests_value(*config),
{
    let mut fields: Vec<(String, JsonValue)> = Vec::new();
    fields.push((String::from_str("cpu"), JsonValue::Str(config.default_cpu_request.clone())));
    fields.push(
        (String::from_str("memory"), JsonValue::Str(config.default_memory_request.clone())),
    );
    let r = JsonValue::Obj(fields);
    proof {
        reveal_with_fuel(jv_view, 3);
        assert(r@->Obj_0 =~= spec_requests_value(*config)->Obj_0);
    }
    r
}

fn limits_value(config: &ResourceLimitsPolicy) -> (r: JsonValue)
    ensures
        r@ == spec_limits_value(*config),
{
    let mut fields: Vec<(String, JsonValue)> = Vec::new();
    fields.push((String::from_str("cpu"), JsonValue::Str(config.default_cpu_limit.clone())));
    fields.push(
        (String::from_str("memory"), JsonValue::Str(config.default_memory_limit.clone())),
    );
    let r = JsonValue::Obj(fields);
    proof {
        reveal_with_fuel(jv_view, 3);
        assert(r@->Obj_0 =~= spec_limits_value(*config)->Obj_0);
    }
    r
}

fn resources_value(config: &ResourceLimitsPolicy) -> (r: JsonValue)
    ensures
        r@ == spec_resources_value(*config),
{
    let req = requests_value(config);
    let ghost g_req = req@;
    let lim = limits_value(config);
    let ghost g_lim = lim@;
    let mut fields: Vec<(String, JsonValue)> = Vec::new();
    fields.push((String::from_str("requests"), req));
    fields.push((String::from_str("limits"), lim));
    let r = JsonValue::Obj(fields);
    proof {
        assert(r@->Obj_0 =~= spec_resources_value(*config)->Obj_0);
    }
    r
}

fn container_path(prefix: &Vec<String>, idx: usize, rest: &str) -> (r: Vec<String>)
    ensures
        r.deep_view() == spec_container_path(prefix.deep_view(), idx as int, seq![rest@]),
{
    let mut r: Vec<String> = Vec::new();
    let mut i: usize = 0;
    while i < prefix.len()
        invariant
            i <= prefix@.len(),
            r@.len() == i,
            prefix.deep_view().len() == prefix@.len(),
            forall|j: int| 0 <= j < i ==> (#[trigger] r@[j])@ == prefix.deep_view()[j],
        decreases prefix@.len() - i,
    {
        let t = prefix[i].clone();
        r.push(t);
        i += 1;
    }
    r.push(String::from_str("containers"));
    r.push(u64_to_string(idx as u64));
    r.push(String::from_str(rest));
    proof {
        assert(r.deep_view() =~= spec_container_path(prefix.deep_view(), idx as int, seq![rest@]));
    }
    r
}

fn container_path3(prefix: &Vec<String>, idx: usize, a: &str, b: &str, c: &str) -> (r: Vec<String>)
    ensures
        r.deep_view() == spec_container_path(prefix.deep_view(), idx as int, seq![a@, b@, c@]),
{
    let mut r = container_path(prefix, idx, a);
    let ghost base = r.deep_view();
    r.push(String::from_str(b));
    r.push(String::from_str(c));
    proof {
        assert(r.deep_view() =~= base + seq![b@, c@]);
        assert(base + seq![b@, c@] =~= spec_container_path(
            prefix.deep_view(),
            idx as int,
            seq![a@, b@, c@],
        ));
    }
    r
}

fn container_path2(prefix: &Vec<String>, idx: usize, a: &str, b: &str) -> (r: Vec<String>)
    ensures
        r.deep_view() == spec_container_path(prefix.deep_view(), idx as int, seq![a@, b@]),
{
    let mut r = container_path(prefix, idx, a);
    let ghost base = r.deep_view();
    r.push(String::from_str(b));
    proof {
        assert(r.deep_view() =~= base + seq![b@]);
        assert(base + seq![b@] =~= spec_container_path(
            prefix.deep_view(),
            idx as int,
            seq![a@, b@],
        ));
    }
    r
}

/// Emits the minimal `add` operations that give this container default
/// requests and limits, without overwriting anything present.
fn generate_resource_patches(
    config: &ResourceLimitsPolicy,
    container: &JsonValue,
    prefix: &Vec<String>,
    idx: usize,
    patches: &mut Vec<PatchOperation>,
)
    ensures
        patch_views(final(patches)@) == patch_views(old(patches)@) + spec_rl_container_patches(
            *config,
            container@,
            prefix.deep_view(),
            idx as int,
        ),
{
    let ghost target = spec_rl_container_patches(
        *config,
        container@,
        prefix.deep_view(),
        idx as int,
    );
    let ghost base = patch_views(old(patches)@);

    let resources = container.get("resources");
    let has_resources = match resources {
        Some(r) => match r.as_object() {
            Some(f) => f.len() > 0,
            None => false,
        },
        None => false,
    };

    if !has_resources {
        let path = container_path(prefix, idx, "resources");
        let value = resources_value(config);
        patches.push(PatchOperation::Add(AddOperation { path, value }));
        proof {
            assert(patch_views(patches@) =~= base + target);
        }
        return;
    }

    if let Some(res) = resources {
        match res.get("requests") {
            Some(requests) => {
                let cpu_present = match requests.get("cpu") {
                    Some(_) => true,
                    None => false,
                };
                if !cpu_present {
                    let path = container_path3(prefix, idx, "resources", "requests", "cpu");
                    let value = JsonValue::Str(config.default_cpu_request.clone());
                    patches.push(PatchOperation::Add(AddOperation { path, value }));
                }
                let mem_present = match requests.get("memory") {
                    Some(_) => true,
                    None => false,
                };
                if !mem_present {
                    let path = container_path3(prefix, idx, "resources", "requests", "memory");
                    let value = JsonValue::Str(config.default_memory_request.clone());
                    patches.push(PatchOperation::Add(AddOperation { path, value }));
                }
            },
            None => {
                let path = container_path2(prefix, idx, "resources", "requests");
                let value = requests_value(config);
                patches.push(PatchOperation::Add(AddOperation { path, value }));
            },
        }
        match res.get("limits") {
            Some(limits) => {
                let cpu_present = match limits.get("cpu") {
                    Some(_) => true,
                    None => false,
                };
                if !cpu_present {
                    let path = container_path3(prefix, idx, "resources", "limits", "cpu");
                    let value = JsonValue::Str(config.default_cpu_limit.clone());
                    patches.push(PatchOperation::Add(AddOperation { path, value }));
                }
                let mem_present = match limits.get("memory") {
                    Some(_) => true,
                    None => false,
                };
                if !mem_present {
                    let path = container_path3(prefix, idx, "resources", "limits", "memory");
                    let value = JsonValue::Str(config.default_memory_limit.clone());
                    patches.push(PatchOperation::Add(AddOperation { path, value }));
                }
            },
            None => {
                let path = container_path2(prefix, idx, "resources", "limits");
                let value = limits_value(config);
                patches.push(PatchOperation::Add(AddOperation { path, value }));
            },
        }
        proof {
            assert(patch_views(patches@) =~= base + target);
        }
    }
}

/// Evaluates the resource limits policy.
#[verifier::rlimit(100)]
pub fn evaluate(config: &ResourceLimitsPolicy, request: &AdmissionRequest, mutating: bool) -> (r:
    PolicyOutput)
    ensures
        r.violations.deep_view() == spec_rl_violations(*config, request@, mutating),
        patch_views(r.patches@) == spec_rl_patches(*config, request@),
{
    let object = match &request.object {
        Some(obj) => obj,
        None => {
            let r = PolicyOutput::allowed();
            proof {
                assert(r.violations.deep_view() =~= spec_rl_violations(
                    *config,
                    request@,
                    mutating,
                ));
                assert(patch_views(r.patches@) =~= spec_rl_patches(*config, request@));
            }
            return r;
        },
    };

    let pod_spec = match get_pod_spec(&object.data, request.kind.as_str()) {
        Some(spec) => spec,
        None => {
            let r = PolicyOutput::allowed();
            proof {
                assert(r.violations.deep_view() =~= spec_rl_violations(
                    *config,
                    request@,
                    mutating,
                ));
                assert(patch_views(r.patches@) =~= spec_rl_patches(*config, request@));
            }
            return r;
        },
    };

    let containers = get_containers(pod_spec);
    let ghost g_containers = spec_containers(pod_spec@);
    let prefix = prefix_tokens(request.kind.as_str());

    let mut violations: Vec<String> = Vec::new();
    let mut patches: Vec<PatchOperation> = Vec::new();

    let mut idx: usize = 0;
    while idx < containers.len()
        invariant
            containers@.len() == g_containers.len(),
            forall|j: int| 0 <= j < containers@.len() ==> (#[trigger] containers@[j]).1@
                == g_containers[j],
            idx <= containers@.len(),
            prefix.deep_view() == spec_prefix_tokens(request.kind@),
            violations.deep_view() == spec_rl_violations_of(
                *config,
                g_containers.take(idx as int),
                mutating,
            ),
            patch_views(patches@) == (if config.inject_defaults {
                spec_rl_patches_of(*config, g_containers.take(idx as int), prefix.deep_view())
            } else {
                Seq::<PatchView>::empty()
            }),
        decreases containers@.len() - idx,
    {
        let container = containers[idx].1;
        let ghost g_c = g_containers[idx as int];
        let ghost old_violations = violations.deep_view();
        let ghost old_patches = patch_views(patches@);
        proof {
            assert(g_containers.take(idx + 1).drop_last() =~= g_containers.take(idx as int));
            assert(g_containers.take(idx + 1).last() == g_c);
        }

        let name = container_name(container);
        let resources = container.get("resources");
        proof {
            assert(opt_view(resources) == spec_resources(g_c));
        }

        let has_requests = obj_nonempty(resources, "requests");
        let has_limits = obj_nonempty(resources, "limits");

        if !has_requests || !has_limits {
            if !(mutating && config.inject_defaults) {
                let missing: &str = if !has_requests && !has_limits {
                    "requests and limits"
                } else if !has_requests {
                    "requests"
                } else {
                    "limits"
                };
                let mut m = String::from_str("container '");
                m.append(name);
                m.append("' missing resource ");
                m.append(missing);
                proof {
                    assert(m@ =~= msg_missing_resources(
                        name@,
                        spec_missing_kind(
                            spec_has_nonempty_obj(spec_resources(g_c), "requests"@),
                            spec_has_nonempty_obj(spec_resources(g_c), "limits"@),
                        ),
                    ));
                }
                violations.push(m);
            }
        }
        let ghost after_missing = violations.deep_view();
        proof {
            assert(after_missing =~= old_violations + spec_rl_missing_violations(
                *config,
                g_c,
                mutating,
            ));
        }

        if let Some(max_cpu) = config.max_cpu_millicores {
            match cpu_violation(max_cpu, name, resources, "requests") {
                Some(m) => violations.push(m),
                None => {},
            }
            match cpu_violation(max_cpu, name, resources, "limits") {
                Some(m) => violations.push(m),
                None => {},
            }
        }
        let ghost after_cpu = violations.deep_view();
        proof {
            assert(after_cpu =~= after_missing + (match config.max_cpu_millicores {
                Some(max) => spec_cpu_violation(max, name@, spec_resources(g_c), "requests"@)
                    + spec_cpu_violation(max, name@, spec_resources(g_c), "limits"@),
                None => Seq::<Seq<char>>::empty(),
            }));
        }

        if let Some(max_mb) = config.max_memory_mb {
            match mem_violation(max_mb, name, resources, "requests") {
                Some(m) => violations.push(m),
                None => {},
            }
            match mem_violation(max_mb, name, resources, "limits") {
                Some(m) => violations.push(m),
                None => {},
            }
        }
        proof {
            assert(violations.deep_view() =~= after_cpu + (match config.max_memory_mb {
                Some(mb) => spec_mem_violation(mb, name@, spec_resources(g_c), "requests"@)
                    + spec_mem_violation(mb, name@, spec_resources(g_c), "limits"@),
                None => Seq::<Seq<char>>::empty(),
            }));
            assert(violations.deep_view() =~= old_violations + spec_rl_container_violations(
                *config,
                g_c,
                mutating,
            ));
            assert(violations.deep_view() =~= spec_rl_violations_of(
                *config,
                g_containers.take(idx + 1),
                mutating,
            ));
        }

        if config.inject_defaults {
            generate_resource_patches(config, container, &prefix, idx, &mut patches);
            proof {
                assert(patch_views(patches@) =~= old_patches + spec_rl_container_patches(
                    *config,
                    g_c,
                    prefix.deep_view(),
                    idx as int,
                ));
            }
        }
        proof {
            if config.inject_defaults {
                assert(patch_views(patches@) =~= spec_rl_patches_of(
                    *config,
                    g_containers.take(idx + 1),
                    prefix.deep_view(),
                ));
            }
        }

        idx += 1;
    }
    proof {
        assert(g_containers.take(g_containers.len() as int) =~= g_containers);
    }

    PolicyOutput { violations, patches }
}

} // verus!
