//! Fixed-point numbers: scalars that are computed with whole numbers alone.
use vstd::prelude::*;
use crate::scalar::{one, zero, Scalar};
use crate::scan::{order_is_strict, order_is_total};
use crate::text::{decimal_value, field_end, find_field_end, is_decimal, is_digit};

verus! {

/// A fixed-point number with sixteen binary digits behind the point: `raw`
/// counts 65536ths. Results that are out of range are held at the nearest
/// end of the range; quotients and products are cut towards zero.
#[derive(Clone, Copy, Debug, PartialEq, Eq, Structural)]
pub struct Fixed {
    pub raw: i64,
}

/// How many steps of a fixed-point number make one.
pub const UNIT: i64 = 65536;

/// `v`, held at the nearest end of the range of `i64`.
pub open spec fn clamped(v: int) -> i64 {
    if v < i64::MIN {
        i64::MIN
    } else if v > i64::MAX {
        i64::MAX
    } else {
        v as i64
    }
}

/// `a / b` cut towards zero; for `b` zero, the end of the range on the side
/// of `a`.
pub open spec fn cut_quotient(a: int, b: int) -> int {
    if b == 0 {
        if a < 0 {
            i64::MIN as int
        } else if a > 0 {
            i64::MAX as int
        } else {
            0
        }
    } else if (a >= 0) == (b > 0) {
        abs_int(a) / abs_int(b)
    } else {
        -(abs_int(a) / abs_int(b))
    }
}

/// The distance of `a` from zero.
pub open spec fn abs_int(a: int) -> int {
    if a < 0 {
        -a
    } else {
        a
    }
}

/// Holds `v` at the nearest end of the range of `i64`.
fn clamp(v: i128) -> (r: i64)
    ensures
        r == clamped(v as int),
{
    if v < i64::MIN as i128 {
        i64::MIN
    } else if v > i64::MAX as i128 {
        i64::MAX
    } else {
        v as i64
    }
}

/// Divides and cuts towards zero.
fn divide(a: i128, b: i128) -> (r: i128)
    requires
        a > i128::MIN,
    ensures
        r == cut_quotient(a as int, b as int),
{
    if b == 0 {
        if a < 0 {
            i64::MIN as i128
        } else if a > 0 {
            i64::MAX as i128
        } else {
            0
        }
    } else {
        let x: u128 = if a < 0 {
            (-a) as u128
        } else {
            a as u128
        };
        let y: u128 = if b < 0 {
            if b == i128::MIN {
                0x8000_0000_0000_0000_0000_0000_0000_0000u128
            } else {
                (-b) as u128
            }
        } else {
            b as u128
        };
        let q: u128 = x / y;
        assert(q <= x) by (nonlinear_arith)
            requires
                q == x / y,
                y > 0,
        ;
        if (a >= 0) == (b > 0) {
            q as i128
        } else {
            -(q as i128)
        }
    }
}

impl Fixed {
    /// The fixed-point number of `v` steps, held at the nearest end of the
    /// range where `v` is out of range.
    pub open spec fn of_steps(v: int) -> Fixed {
        Fixed { raw: clamped(v) }
    }
}

/// `r` is the largest whole number whose square is at most `n`.
pub open spec fn is_whole_root(r: nat, n: nat) -> bool {
    r * r <= n < (r + 1) * (r + 1)
}

/// The square root of `n`, cut down to a whole number.
pub open spec fn whole_root(n: nat) -> nat {
    choose|r: nat| is_whole_root(r, n)
}

/// A number has one whole root only.
pub proof fn lemma_whole_root_unique(r: nat, n: nat)
    requires
        is_whole_root(r, n),
    ensures
        whole_root(n) == r,
{
    let s = whole_root(n);
    assert(is_whole_root(s, n));
    assert(s == r) by (nonlinear_arith)
        requires
            r * r <= n < (r + 1) * (r + 1),
            s * s <= n < (s + 1) * (s + 1),
    ;
}

/// Finds the whole root of `n` by halving the range it can lie in.
fn find_whole_root(n: u128) -> (r: u64)
    requires
        n < 0x1_0000_0000_0000_0000_0000,
    ensures
        r == whole_root(n as nat),
        r < 0x100_0000_0000,
{
    let mut lo: u128 = 0;
    let mut hi: u128 = 0x100_0000_0000;
    while hi - lo > 1
        invariant
            lo < hi <= 0x100_0000_0000,
            lo * lo <= n < hi * hi,
        decreases hi - lo,
    {
        let mid: u128 = lo + (hi - lo) / 2;
        assert(mid * mid < 0x1_0000_0000_0000_0000_0000) by (nonlinear_arith)
            requires
                mid < 0x100_0000_0000,
        ;
        if mid * mid <= n {
            lo = mid;
        } else {
            hi = mid;
        }
    }
    proof {
        lemma_whole_root_unique(lo as nat, n as nat);
    }
    lo as u64
}

/// Ten to the power of `k`.
pub open spec fn pow10(k: nat) -> nat
    decreases k,
{
    if k == 0 {
        1
    } else {
        10 * pow10((k - 1) as nat)
    }
}

/// How many digits behind the point count; what follows them is read and
/// passed over.
pub const KEPT: usize = 18;

/// What stands before the point of `body`, or all of it where it has none.
pub open spec fn whole_part(body: Seq<u8>) -> Seq<u8> {
    body.subrange(0, field_end(body, 0, 0x2e))
}

/// What stands behind the first point of `body`.
pub open spec fn fraction_part(body: Seq<u8>) -> Seq<u8> {
    if field_end(body, 0, 0x2e) < body.len() {
        body.subrange(field_end(body, 0, 0x2e) + 1, body.len() as int)
    } else {
        Seq::empty()
    }
}

/// The number that `body` writes, taken below zero if `negative`: one digit
/// or more, and then, if anything, a point and digits. Anything else is no
/// number.
pub open spec fn fixed_of_digits(body: Seq<u8>, negative: bool) -> Option<Fixed> {
    let whole = whole_part(body);
    let fraction = fraction_part(body);
    let kept = if fraction.len() > KEPT {
        fraction.subrange(0, KEPT as int)
    } else {
        fraction
    };
    if is_decimal(whole) && forall|i: int|
        0 <= i < fraction.len() ==> is_digit(#[trigger] fraction[i]) {
        let steps = decimal_value(whole) * UNIT + (decimal_value(kept) * UNIT) / (pow10(
            kept.len(),
        ) as int);
        Some(
            Fixed::of_steps(
                if negative {
                    -steps
                } else {
                    steps
                },
            ),
        )
    } else {
        None
    }
}

/// The number that `text` writes: what `fixed_of_digits` reads, with a minus
/// sign in front or without.
pub open spec fn fixed_of_text(text: Seq<u8>) -> Option<Fixed> {
    if text.len() > 0 && text[0] == 0x2d {
        fixed_of_digits(text.subrange(1, text.len() as int), true)
    } else {
        fixed_of_digits(text, false)
    }
}

/// Reads a fixed-point number written in decimal.
fn read_fixed(text: &[u8]) -> (r: Option<Fixed>)
    ensures
        r == fixed_of_text(text@),
{
    if text.len() > 0 && text[0] == 0x2d {
        read_digits(vstd::slice::slice_subrange(text, 1, text.len()), true)
    } else {
        read_digits(text, false)
    }
}

/// Reads the digits of a fixed-point number.
fn read_digits(body: &[u8], negative: bool) -> (r: Option<Fixed>)
    ensures
        r == fixed_of_digits(body@, negative),
{
    let len: usize = body.len();
    let point: usize = find_field_end(body, 0, 0x2e);
    let ghost whole = whole_part(body@);
    let ghost fraction = fraction_part(body@);
    if point == 0 {
        return None;
    }
    // the digits before the point; beyond 2^47 the number is out of range
    let mut units: u64 = 0;
    let mut huge: bool = false;
    let mut i: usize = 0;
    while i < point
        invariant
            i <= point <= len == body@.len(),
            point == field_end(body@, 0, 0x2e),
            whole == whole_part(body@),
            forall|k: int| 0 <= k < i ==> is_digit(#[trigger] whole[k]),
            huge ==> decimal_value(whole.subrange(0, i as int)) >= 0x8000_0000_0000,
            !huge ==> units == decimal_value(whole.subrange(0, i as int)) < 0x8000_0000_0000,
        decreases point - i,
    {
        let b: u8 = body[i];
        if b < 0x30 || b > 0x39 {
            assert(!is_digit(whole[i as int]));
            return None;
        }
        let ghost longer = whole.subrange(0, i + 1);
        assert(longer.drop_last() =~= whole.subrange(0, i as int));
        assert(longer.last() == b);
        if !huge {
            units = units * 10 + (b - 0x30) as u64;
            if units >= 0x8000_0000_0000 {
                huge = true;
            }
        }
        i += 1;
    }
    assert(whole.subrange(0, point as int) =~= whole);
    // the digits behind the point
    let mut parts: u64 = 0;
    let mut scale: u64 = 1;
    let mut count: usize = 0;
    let mut j: usize = if point < len {
        point + 1
    } else {
        len
    };
    let first: usize = j;
    while j < len
        invariant
            first <= j <= len == body@.len(),
            point == field_end(body@, 0, 0x2e),
            is_decimal(whole_part(body@)),
            point < len ==> first == point + 1,
            point >= len ==> first == len,
            fraction == fraction_part(body@),
            forall|k: int| 0 <= k < j - first ==> is_digit(#[trigger] fraction[k]),
            count <= KEPT,
            count == if j - first > KEPT {
                KEPT as int
            } else {
                j - first
            },
            parts == decimal_value(fraction.subrange(0, count as int)),
            scale == pow10(count as nat),
            parts < scale <= 1_000_000_000_000_000_000,
        decreases len - j,
    {
        let b: u8 = body[j];
        if b < 0x30 || b > 0x39 {
            assert(fraction[j - first] == b);
            return None;
        }
        if count < KEPT {
            let ghost longer = fraction.subrange(0, count + 1);
            assert(longer.drop_last() =~= fraction.subrange(0, count as int));
            assert(longer.last() == b);
            assert(pow10((count + 1) as nat) == 10 * pow10(count as nat));
            assert(pow10(count as nat) <= 100_000_000_000_000_000) by {
                lemma_pow10_grows(count as nat, 17);
                reveal_with_fuel(pow10, 18);
                assert(pow10(17) == 100_000_000_000_000_000);
            }
            parts = parts * 10 + (b - 0x30) as u64;
            scale = scale * 10;
            count += 1;
        }
        j += 1;
    }
    let ghost kept = if fraction.len() > KEPT {
        fraction.subrange(0, KEPT as int)
    } else {
        fraction
    };
    assert(fraction.subrange(0, count as int) =~= kept);
    if huge {
        return Some(
            Fixed {
                raw: if negative {
                    i64::MIN
                } else {
                    i64::MAX
                },
            },
        );
    }
    let behind: u128 = (parts as u128 * 65536) / (scale as u128);
    assert(behind < 65536) by (nonlinear_arith)
        requires
            behind == (parts * 65536) / (scale as int),
            0 <= parts < scale,
    ;
    let steps: i128 = (units as i128) * 65536 + (behind as i128);
    assert(steps == decimal_value(whole) * UNIT + (decimal_value(kept) * UNIT) / (pow10(
        kept.len(),
    ) as int));
    Some(
        Fixed {
            raw: clamp(
                if negative {
                    -steps
                } else {
                    steps
                },
            ),
        },
    )
}

/// Powers of ten grow with the exponent.
proof fn lemma_pow10_grows(a: nat, b: nat)
    requires
        a <= b,
    ensures
        0 < pow10(a) <= pow10(b),
    decreases b,
{
    if a < b {
        lemma_pow10_grows(a, (b - 1) as nat);
    } else if a > 0 {
        lemma_pow10_grows((a - 1) as nat, (a - 1) as nat);
    }
}

impl Scalar for Fixed {
    open spec fn of_index(n: usize) -> Fixed {
        Fixed::of_steps(n * UNIT)
    }

    open spec fn to_index(self) -> usize {
        if self.raw < 0 {
            0
        } else if self.raw / UNIT > usize::MAX {
            usize::MAX
        } else {
            (self.raw / UNIT) as usize
        }
    }

    open spec fn sum(self, rhs: Fixed) -> Fixed {
        Fixed::of_steps(self.raw + rhs.raw)
    }

    open spec fn difference(self, rhs: Fixed) -> Fixed {
        Fixed::of_steps(self.raw - rhs.raw)
    }

    open spec fn product(self, rhs: Fixed) -> Fixed {
        Fixed::of_steps(cut_quotient(self.raw * rhs.raw, UNIT as int))
    }

    open spec fn quotient(self, rhs: Fixed) -> Fixed {
        Fixed::of_steps(cut_quotient(self.raw * UNIT, rhs.raw as int))
    }

    open spec fn negation(self) -> Fixed {
        Fixed::of_steps(-self.raw)
    }

    /// The root of a number below zero is zero.
    open spec fn root(self) -> Fixed {
        if self.raw < 0 {
            Fixed { raw: 0 }
        } else {
            Fixed { raw: whole_root((self.raw * UNIT) as nat) as i64 }
        }
    }

    open spec fn less(self, rhs: Fixed) -> bool {
        self.raw < rhs.raw
    }

    open spec fn parsed(text: Seq<u8>) -> Option<Fixed> {
        fixed_of_text(text)
    }

    fn from_usize(n: usize) -> (r: Fixed) {
        let wide: u64 = n as u64;
        if wide >= 0x8000_0000_0000 {
            Fixed { raw: i64::MAX }
        } else {
            Fixed { raw: (wide as i64) * UNIT }
        }
    }

    fn to_usize(self) -> (r: usize) {
        if self.raw < 0 {
            0
        } else {
            let whole: u64 = (self.raw / UNIT) as u64;
            if whole > usize::MAX as u64 {
                usize::MAX
            } else {
                whole as usize
            }
        }
    }

    fn add(self, rhs: Fixed) -> (r: Fixed) {
        Fixed { raw: clamp(self.raw as i128 + rhs.raw as i128) }
    }

    fn sub(self, rhs: Fixed) -> (r: Fixed) {
        Fixed { raw: clamp(self.raw as i128 - rhs.raw as i128) }
    }

    fn mul(self, rhs: Fixed) -> (r: Fixed) {
        assert(-0x4000_0000_0000_0000_0000_0000_0000_0000 <= self.raw * rhs.raw
            <= 0x4000_0000_0000_0000_0000_0000_0000_0000) by (nonlinear_arith)
            requires
                -0x8000_0000_0000_0000 <= self.raw <= 0x8000_0000_0000_0000,
                -0x8000_0000_0000_0000 <= rhs.raw <= 0x8000_0000_0000_0000,
        ;
        let wide: i128 = (self.raw as i128) * (rhs.raw as i128);
        Fixed { raw: clamp(divide(wide, UNIT as i128)) }
    }

    fn div(self, rhs: Fixed) -> (r: Fixed) {
        Fixed { raw: clamp(divide((self.raw as i128) * (UNIT as i128), rhs.raw as i128)) }
    }

    fn neg(self) -> (r: Fixed) {
        Fixed { raw: clamp(-(self.raw as i128)) }
    }

    fn sqrt(self) -> (r: Fixed) {
        if self.raw < 0 {
            Fixed { raw: 0 }
        } else {
            Fixed { raw: find_whole_root((self.raw as u128) * 65536) as i64 }
        }
    }

    fn lt(self, rhs: Fixed) -> (r: bool) {
        self.raw < rhs.raw
    }

    fn parse(text: &[u8]) -> (r: Option<Fixed>) {
        read_fixed(text)
    }
}

/// The fixed-point numbers are in a strict total order, and minus one lies
/// below zero: what holds of scans under these conditions holds of every
/// scan with fixed-point numbers.
pub proof fn lemma_fixed_is_ordered()
    ensures
        order_is_strict::<Fixed>(),
        order_is_total::<Fixed>(),
        one::<Fixed>().negation().less(zero()),
{
}

} // verus!
