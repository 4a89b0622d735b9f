//! Checking that two quantities are approximately equal, under a relative
//! difference bound given as a decimal numeral.
//!
//! The relative difference of `left` and `right` is their absolute
//! difference over the larger of the two, as a fixed-point fraction scaled
//! by `10^18`, rounded down. The check is computed exactly, comparing
//! 256-bit products, never through floating point.

use vstd::prelude::*;
use vstd::arithmetic::div_mod::lemma_fundamental_div_mod;
use vstd::utf8::encode_utf8;
use crate::text::string_bytes;

verus! {

/// The fixed-point scale of relative differences: eighteen decimal places.
pub const DECIMAL_SCALE: u128 = 1000000000000000000;

/// Ten to the `e`th.
pub open spec fn pow10(e: nat) -> nat
    decreases e,
{
    if e == 0 {
        1
    } else {
        10 * pow10((e - 1) as nat)
    }
}

/// Whether every byte is an ASCII digit.
pub open spec fn all_byte_digits(s: Seq<u8>) -> bool {
    forall|i: int| 0 <= i < s.len() ==> 48 <= #[trigger] s[i] <= 57
}

/// The numeral's value, read in base ten.
pub open spec fn byte_digits_val(s: Seq<u8>) -> nat
    decreases s.len(),
{
    if s.len() == 0 {
        0
    } else {
        byte_digits_val(s.drop_last()) * 10 + (s.last() - 48) as nat
    }
}

/// Where the decimal point is, at or after `from`; the length when none is.
pub open spec fn find_dot(s: Seq<u8>, from: int) -> int
    decreases s.len() - from,
{
    if from < 0 || from >= s.len() {
        s.len() as int
    } else if s[from] == 46 {
        from
    } else {
        find_dot(s, from + 1)
    }
}

/// The value of a decimal numeral in fixed-point atomics (scaled by
/// `10^18`): a nonempty whole part, optionally a point and one to eighteen
/// fractional digits. `None` means the numeral is malformed.
pub open spec fn dec_atomics(s: Seq<u8>) -> Option<nat> {
    let d = find_dot(s, 0);
    if d == s.len() {
        if s.len() > 0 && all_byte_digits(s) {
            Some(byte_digits_val(s) * (DECIMAL_SCALE as nat))
        } else {
            None
        }
    } else {
        let whole = s.take(d);
        let frac = s.skip(d + 1);
        if whole.len() > 0 && 1 <= frac.len() <= 18 && all_byte_digits(whole) && all_byte_digits(
            frac,
        ) {
            Some(
                byte_digits_val(whole) * (DECIMAL_SCALE as nat) + byte_digits_val(frac) * pow10(
                    (18 - frac.len()) as nat,
                ),
            )
        } else {
            None
        }
    }
}

/// Whether `left` and `right` differ by at most the relative bound `m`, in
/// atomics: the scaled quotient of their absolute difference over the
/// larger value, rounded down, is at most `m`.
pub open spec fn approx_within(left: u128, right: u128, m: nat) -> bool {
    let a: int = if left >= right {
        left - right
    } else {
        right - left
    };
    let b: int = if left >= right {
        left as int
    } else {
        right as int
    };
    (a * (DECIMAL_SCALE as int)) / b <= m
}

/// A numeral's value never shrinks as digits are appended.
proof fn lemma_digits_prefix(s: Seq<u8>, k: int)
    requires
        0 <= k <= s.len(),
    ensures
        byte_digits_val(s.take(k)) <= byte_digits_val(s),
    decreases s.len() - k,
{
    if k < s.len() {
        lemma_digits_prefix(s.drop_last(), k);
        assert(s.drop_last().take(k) =~= s.take(k));
    } else {
        assert(s.take(k) =~= s);
    }
}

/// A numeral of `len` digits is below ten to the `len`th.
proof fn lemma_digits_bound(s: Seq<u8>)
    requires
        all_byte_digits(s),
    ensures
        byte_digits_val(s) < pow10(s.len()),
    decreases s.len(),
{
    if s.len() > 0 {
        assert(all_byte_digits(s.drop_last())) by {
            assert(forall|i: int|
                0 <= i < s.drop_last().len() ==> (#[trigger] s.drop_last()[i]) == s[i]);
        }
        lemma_digits_bound(s.drop_last());
        assert((byte_digits_val(s.drop_last()) * 10 + (s.last() - 48) as nat) < pow10(s.len())) by {
            assert(pow10(s.len()) == 10 * pow10((s.len() - 1) as nat));
            assert(byte_digits_val(s.drop_last()) * 10 <= (pow10((s.len() - 1) as nat) - 1) * 10)
                by (nonlinear_arith)
                requires
                    byte_digits_val(s.drop_last()) <= pow10((s.len() - 1) as nat) - 1,
            ;
        }
    }
}

/// Reads the value of `count` digits at `from`, or nothing where a byte is
/// no digit or the value outgrows the 128-bit range.
#[verifier::loop_isolation(false)]
fn read_digits(s: &Vec<u8>, from: usize, count: usize) -> (r: Option<u128>)
    requires
        from + count <= s@.len(),
    ensures
        ({
            let piece = s@.subrange(from as int, from + count as int);
            &&& (r matches Some(v) ==> count > 0 && all_byte_digits(piece) && v
                == byte_digits_val(piece))
            &&& (r is None ==> count == 0 || !all_byte_digits(piece) || byte_digits_val(piece)
                > u128::MAX)
        }),
{
    let ghost piece = s@.subrange(from as int, from + count as int);
    let slen = s.len();
    if count == 0 {
        return None;
    }
    let mut acc: u128 = 0;
    let mut i: usize = 0;
    while i < count
        invariant
            0 <= i <= count,
            acc == byte_digits_val(piece.take(i as int)),
            all_byte_digits(piece.take(i as int)),
        decreases count - i,
    {
        let b = s[from + i];
        proof {
            assert(piece[i as int] == s@[from + i as int]);
        }
        if b < 48 || b > 57 {
            proof {
                assert(!all_byte_digits(piece));
            }
            return None;
        }
        let d = (b - 48) as u128;
        if acc > (u128::MAX - d) / 10 {
            proof {
                lemma_fundamental_div_mod((u128::MAX - d) as int, 10);
                assert(acc * 10 + d > u128::MAX) by (nonlinear_arith)
                    requires
                        acc >= ((u128::MAX - d) as int) / 10 + 1,
                        (u128::MAX - d) as int == 10 * (((u128::MAX - d) as int) / 10) + ((
                        u128::MAX - d) as int) % 10,
                        0 <= ((u128::MAX - d) as int) % 10 < 10,
                ;
                assert(piece.take(i + 1 as int).drop_last() =~= piece.take(i as int));
                assert(piece.take(i + 1 as int).last() == piece[i as int]);
                assert(byte_digits_val(piece.take(i + 1 as int)) > u128::MAX);
                lemma_digits_prefix(piece, i + 1 as int);
                if all_byte_digits(piece) {
                    assert(byte_digits_val(piece) > u128::MAX);
                }
            }
            return None;
        }
        proof {
            lemma_fundamental_div_mod((u128::MAX - d) as int, 10);
            assert(acc * 10 + d <= u128::MAX) by (nonlinear_arith)
                requires
                    acc <= ((u128::MAX - d) as int) / 10,
                    (u128::MAX - d) as int == 10 * (((u128::MAX - d) as int) / 10) + ((u128::MAX
                        - d) as int) % 10,
                    0 <= ((u128::MAX - d) as int) % 10 < 10,
            ;
            assert(piece.take(i + 1 as int).drop_last() =~= piece.take(i as int));
            assert(piece.take(i + 1 as int).last() == piece[i as int]);
        }
        acc = acc * 10 + d;
        i += 1;
    }
    proof {
        assert(piece.take(count as int) =~= piece);
    }
    Some(acc)
}

/// Ten to the `e`th, for small `e`.
fn pow10_exec(e: usize) -> (r: u128)
    requires
        e <= 18,
    ensures
        r == pow10(e as nat),
        r >= 1,
    decreases e,
{
    if e == 0 {
        1
    } else {
        let rest = pow10_exec(e - 1);
        proof {
            lemma_pow10_bound((e - 1) as nat);
        }
        10 * rest
    }
}

/// Eighteen places exactly.
proof fn lemma_pow10_eighteen()
    ensures
        pow10(18) == DECIMAL_SCALE,
{
    assert(pow10(0) == 1);
    assert(pow10(1) == 10 * pow10(0));
    assert(pow10(2) == 10 * pow10(1));
    assert(pow10(3) == 10 * pow10(2));
    assert(pow10(4) == 10 * pow10(3));
    assert(pow10(5) == 10 * pow10(4));
    assert(pow10(6) == 10 * pow10(5));
    assert(pow10(7) == 10 * pow10(6));
    assert(pow10(8) == 10 * pow10(7));
    assert(pow10(9) == 10 * pow10(8));
    assert(pow10(10) == 10 * pow10(9));
    assert(pow10(11) == 10 * pow10(10));
    assert(pow10(12) == 10 * pow10(11));
    assert(pow10(13) == 10 * pow10(12));
    assert(pow10(14) == 10 * pow10(13));
    assert(pow10(15) == 10 * pow10(14));
    assert(pow10(16) == 10 * pow10(15));
    assert(pow10(17) == 10 * pow10(16));
    assert(pow10(18) == 10 * pow10(17));
}

/// Ten to the `e`th fits comfortably for small `e`.
proof fn lemma_pow10_bound(e: nat)
    requires
        e <= 18,
    ensures
        pow10(e) <= 1000000000000000000,
{
    lemma_pow10_mono(e, 18);
    lemma_pow10_eighteen();
}

/// Ten to the `e`th grows with `e`.
proof fn lemma_pow10_mono(a: nat, b: nat)
    requires
        a <= b,
    ensures
        pow10(a) <= pow10(b),
    decreases b,
{
    if a < b {
        lemma_pow10_mono(a, (b - 1) as nat);
        assert(pow10(b) == 10 * pow10((b - 1) as nat));
        assert(pow10((b - 1) as nat) >= 1) by {
            lemma_pow10_pos((b - 1) as nat);
        }
    }
}

proof fn lemma_pow10_pos(e: nat)
    ensures
        pow10(e) >= 1,
    decreases e,
{
    if e > 0 {
        lemma_pow10_pos((e - 1) as nat);
    }
}

/// Parses a decimal numeral into fixed-point atomics, or nothing where it
/// is malformed or does not fit 128 bits.
#[verifier::loop_isolation(false)]
fn parse_atomics(s: &Vec<u8>) -> (r: Option<u128>)
    ensures
        (r matches Some(v) ==> dec_atomics(s@) == Some(v as nat)),
        (r is None ==> dec_atomics(s@) is None || dec_atomics(s@).unwrap() > u128::MAX),
{
    let n = s.len();
    let mut d: usize = 0;
    while d < n && s[d] != 46
        invariant
            0 <= d <= n,
            n == s@.len(),
            find_dot(s@, 0) == find_dot(s@, d as int),
        decreases n - d,
    {
        d += 1;
    }
    proof {
        assert(find_dot(s@, 0) == d as int);
    }
    if d == n {
        let whole = match read_digits(s, 0, n) {
            None => {
                proof {
                    assert(s@.subrange(0, n as int) =~= s@);
                }
                return None;
            },
            Some(v) => v,
        };
        proof {
            assert(s@.subrange(0, n as int) =~= s@);
        }
        if whole > u128::MAX / DECIMAL_SCALE {
            proof {
                lemma_fundamental_div_mod(u128::MAX as int, DECIMAL_SCALE as int);
                assert(whole * DECIMAL_SCALE > u128::MAX) by (nonlinear_arith)
                    requires
                        whole >= (u128::MAX as int) / (DECIMAL_SCALE as int) + 1,
                        u128::MAX as int == (DECIMAL_SCALE as int) * ((u128::MAX as int) / (
                        DECIMAL_SCALE as int)) + (u128::MAX as int) % (DECIMAL_SCALE as int),
                        0 <= (u128::MAX as int) % (DECIMAL_SCALE as int) < DECIMAL_SCALE as int,
                ;
            }
            return None;
        }
        proof {
            lemma_fundamental_div_mod(u128::MAX as int, DECIMAL_SCALE as int);
            assert(whole * DECIMAL_SCALE <= u128::MAX) by (nonlinear_arith)
                requires
                    whole <= (u128::MAX as int) / (DECIMAL_SCALE as int),
                    u128::MAX as int == (DECIMAL_SCALE as int) * ((u128::MAX as int) / (
                    DECIMAL_SCALE as int)) + (u128::MAX as int) % (DECIMAL_SCALE as int),
                    0 <= (u128::MAX as int) % (DECIMAL_SCALE as int) < DECIMAL_SCALE as int,
            ;
        }
        Some(whole * DECIMAL_SCALE)
    } else {
        let frac_len = n - d - 1;
        if d == 0 || frac_len == 0 || frac_len > 18 {
            return None;
        }
        let whole = match read_digits(s, 0, d) {
            None => {
                proof {
                    assert(s@.subrange(0, d as int) =~= s@.take(d as int));
                }
                return None;
            },
            Some(v) => v,
        };
        let frac = match read_digits(s, d + 1, frac_len) {
            None => {
                proof {
                    assert(s@.subrange(d + 1 as int, n as int) =~= s@.skip(d + 1 as int));
                    assert(s@.skip(d + 1 as int).len() == frac_len);
                    if all_byte_digits(s@.skip(d + 1 as int)) {
                        lemma_digits_bound(s@.skip(d + 1 as int));
                        lemma_pow10_bound(frac_len as nat);
                    }
                }
                return None;
            },
            Some(v) => v,
        };
        proof {
            assert(s@.subrange(0, d as int) =~= s@.take(d as int));
            assert(s@.subrange(d + 1 as int, n as int) =~= s@.skip(d + 1 as int));
        }
        proof {
            lemma_pow10_eighteen();
            lemma_pow10_split(frac_len as nat);
            lemma_digits_bound(s@.skip(d + 1 as int));
            lemma_pow10_pos((18 - frac_len) as nat);
        }
        if whole > u128::MAX / DECIMAL_SCALE {
            proof {
                lemma_fundamental_div_mod(u128::MAX as int, DECIMAL_SCALE as int);
                assert(whole * DECIMAL_SCALE > u128::MAX) by (nonlinear_arith)
                    requires
                        whole >= (u128::MAX as int) / (DECIMAL_SCALE as int) + 1,
                        u128::MAX as int == (DECIMAL_SCALE as int) * ((u128::MAX as int) / (
                        DECIMAL_SCALE as int)) + (u128::MAX as int) % (DECIMAL_SCALE as int),
                        0 <= (u128::MAX as int) % (DECIMAL_SCALE as int) < DECIMAL_SCALE as int,
                ;
                assert(byte_digits_val(s@.skip(d + 1 as int)) * pow10((18 - frac_len) as nat)
                    >= 0);
            }
            return None;
        }
        proof {
            lemma_fundamental_div_mod(u128::MAX as int, DECIMAL_SCALE as int);
            assert(whole * DECIMAL_SCALE <= u128::MAX) by (nonlinear_arith)
                requires
                    whole <= (u128::MAX as int) / (DECIMAL_SCALE as int),
                    u128::MAX as int == (DECIMAL_SCALE as int) * ((u128::MAX as int) / (
                    DECIMAL_SCALE as int)) + (u128::MAX as int) % (DECIMAL_SCALE as int),
                    0 <= (u128::MAX as int) % (DECIMAL_SCALE as int) < DECIMAL_SCALE as int,
            ;
            assert(byte_digits_val(s@.skip(d + 1 as int)) * pow10((18 - frac_len) as nat)
                < DECIMAL_SCALE) by (nonlinear_arith)
                requires
                    byte_digits_val(s@.skip(d + 1 as int)) < pow10(frac_len as nat),
                    pow10(frac_len as nat) * pow10((18 - frac_len) as nat) == pow10(18),
                    pow10(18) == DECIMAL_SCALE,
                    pow10((18 - frac_len) as nat) >= 1,
            ;
        }
        let ws = whole * DECIMAL_SCALE;
        let scale = pow10_exec(18 - frac_len);
        let fs_part = frac * scale;
        if fs_part > u128::MAX - ws {
            return None;
        }
        Some(ws + fs_part)
    }
}

/// Ten to the eighteenth splits at any point below it.
proof fn lemma_pow10_split(k: nat)
    requires
        k <= 18,
    ensures
        pow10(k) * pow10((18 - k) as nat) == pow10(18),
    decreases k,
{
    if k == 0 {
        assert(pow10(0) == 1);
    } else {
        lemma_pow10_split((k - 1) as nat);
        assert(pow10(k) == 10 * pow10((k - 1) as nat));
        assert(pow10((18 - (k - 1)) as nat) == 10 * pow10((18 - k) as nat));
        assert((10 * pow10((k - 1) as nat)) * pow10((18 - k) as nat) == pow10((k - 1) as nat) * (10
            * pow10((18 - k) as nat))) by (nonlinear_arith);
    }
}

/// A 256-bit product of a 128-bit value and a factor below `2^63`, split
/// into a high part and a 64-bit low part.
fn wide_mul(x: u128, c: u128) -> (r: (u128, u128))
    requires
        c < 0x8000000000000000,
    ensures
        r.0 * 0x10000000000000000 + r.1 == x * c,
        r.1 < 0x10000000000000000,
{
    let q = x / 0x10000000000000000;
    let rem = x % 0x10000000000000000;
    proof {
        lemma_fundamental_div_mod(x as int, 0x10000000000000000);
        assert(q < 0x10000000000000000) by (nonlinear_arith)
            requires
                x as int == 0x10000000000000000 * (q as int) + rem,
                x <= u128::MAX,
                0 <= rem,
        ;
        assert(q * c < 0x10000000000000000 * 0x8000000000000000) by (nonlinear_arith)
            requires
                q < 0x10000000000000000,
                c < 0x8000000000000000,
        ;
        assert(rem * c < 0x10000000000000000 * 0x8000000000000000) by (nonlinear_arith)
            requires
                rem < 0x10000000000000000,
                c < 0x8000000000000000,
        ;
    }
    let qc = q * c;
    let rc = rem * c;
    let low = rc % 0x10000000000000000;
    let carry = rc / 0x10000000000000000;
    proof {
        lemma_fundamental_div_mod(rc as int, 0x10000000000000000);
        assert(carry <= rc / 0x10000000000000000);
    }
    let high = qc + carry;
    proof {
        assert(high * 0x10000000000000000 + low == x * c) by (nonlinear_arith)
            requires
                x as int == 0x10000000000000000 * (q as int) + rem,
                rc as int == 0x10000000000000000 * (carry as int) + low,
                qc == q * c,
                rc == rem * c,
                high == qc + carry,
        ;
    }
    (high, low)
}

/// Whether the first split 256-bit value is below the second.
fn wide_lt(a: (u128, u128), b: (u128, u128)) -> (r: bool)
    requires
        a.1 < 0x10000000000000000,
        b.1 < 0x10000000000000000,
    ensures
        r == (a.0 * 0x10000000000000000 + a.1 < b.0 * 0x10000000000000000 + b.1),
{
    proof {
        if a.0 < b.0 {
            assert(a.0 * 0x10000000000000000 + a.1 < b.0 * 0x10000000000000000 + b.1)
                by (nonlinear_arith)
                requires
                    a.0 < b.0,
                    a.1 < 0x10000000000000000,
            ;
        }
        if a.0 > b.0 {
            assert(a.0 * 0x10000000000000000 + a.1 >= b.0 * 0x10000000000000000 + b.1)
                by (nonlinear_arith)
                requires
                    a.0 > b.0,
                    b.1 < 0x10000000000000000,
            ;
        }
    }
    a.0 < b.0 || (a.0 == b.0 && a.1 < b.1)
}

/// Whether `left` and `right` are approximately equal: their relative
/// difference, in fixed-point atomics rounded down, is at most the decimal
/// bound `max_rel_diff`. The bound must be a well-formed decimal numeral
/// whose atomics fit 128 bits, and at least one of the two values must be
/// nonzero.
pub fn assert_approx_eq_impl(left: u128, right: u128, max_rel_diff: &str) -> (r: bool)
    requires
        ({
            let parsed = dec_atomics(encode_utf8(max_rel_diff@));
            parsed is Some && parsed.unwrap() <= u128::MAX
        }),
        left > 0 || right > 0,
    ensures
        r == approx_within(left, right, dec_atomics(encode_utf8(max_rel_diff@)).unwrap()),
{
    let bound_bytes = string_bytes(max_rel_diff);
    let m = match parse_atomics(&bound_bytes) {
        Some(m) => m,
        None => {
            // The precondition pins the numeral as well formed and fitting,
            // so the parser cannot fail here.
            proof {
                assert(false);
            }
            return false;
        },
    };
    let a = if left >= right {
        left - right
    } else {
        right - left
    };
    let b = if left >= right {
        left
    } else {
        right
    };
    if m >= DECIMAL_SCALE {
        proof {
            lemma_fundamental_div_mod(a as int * (DECIMAL_SCALE as int), b as int);
            assert((a as int * (DECIMAL_SCALE as int)) / (b as int) <= DECIMAL_SCALE)
                by (nonlinear_arith)
                requires
                    0 < b <= u128::MAX,
                    0 <= a <= b,
                    a as int * (DECIMAL_SCALE as int) == (b as int) * ((a as int * (DECIMAL_SCALE
                        as int)) / (b as int)) + (a as int * (DECIMAL_SCALE as int)) % (b as int),
                    0 <= (a as int * (DECIMAL_SCALE as int)) % (b as int) < b as int,
            ;
        }
        return true;
    }
    let lhs = wide_mul(a, DECIMAL_SCALE);
    let rhs = wide_mul(b, m + 1);
    let lt = wide_lt(lhs, rhs);
    proof {
        lemma_fundamental_div_mod(a as int * (DECIMAL_SCALE as int), b as int);
        assert(((a as int * (DECIMAL_SCALE as int)) / (b as int) <= m) == (a as int
            * (DECIMAL_SCALE as int) < (m + 1) * (b as int))) by (nonlinear_arith)
            requires
                0 < b <= u128::MAX,
                a as int * (DECIMAL_SCALE as int) == (b as int) * ((a as int * (DECIMAL_SCALE
                    as int)) / (b as int)) + (a as int * (DECIMAL_SCALE as int)) % (b as int),
                0 <= (a as int * (DECIMAL_SCALE as int)) % (b as int) < b as int,
        ;
    }
    lt
}

} // verus!
