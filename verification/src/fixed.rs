//! Exact decimal numbers with nine fractional digits.
//!
//! A `Fixed` holds a real number as a whole count of billionths in an `i64`,
//! so times, volumes and the other fractional settings of a project are held
//! exactly as written (up to nine decimals) and rendered without rounding
//! noise. Results that leave the `i64` range saturate at its bounds.
use vstd::prelude::*;
use crate::text::{digit_char, nat_text, push_nat_text, string_from_chars, string_push};

verus! {

/// Billionths per unit.
pub const SCALE: i64 = 1_000_000_000;

/// A real number, `raw / 10^9`.
#[derive(Clone, Copy, Debug, PartialEq, Eq, Structural)]
pub struct Fixed {
    pub raw: i64,
}

/// `10^k`.
pub open spec fn pow10(k: nat) -> nat
    decreases k,
{
    if k == 0 {
        1
    } else {
        10 * pow10((k - 1) as nat)
    }
}

/// `x` clamped to the range of `i64`.
pub open spec fn clamp64(x: int) -> int {
    if x > i64::MAX {
        i64::MAX as int
    } else if x < i64::MIN {
        i64::MIN as int
    } else {
        x
    }
}

/// Integer division rounding toward zero, as Rust's `/` does.
pub open spec fn tdiv(a: int, b: int) -> int
    recommends
        b != 0,
{
    let q = (if a < 0 { -a } else { a }) / (if b < 0 { -b } else { b });
    if (a < 0) != (b < 0) {
        -q
    } else {
        q
    }
}

/// The nine fractional digits of `f` (below 10^9), most significant first.
pub open spec fn frac9(f: nat) -> Seq<char> {
    Seq::new(9, |i: int| digit_char(((f / pow10((8 - i) as nat)) % 10) as int))
}

/// `s` without its trailing `'0'` characters.
pub open spec fn strip_zeros(s: Seq<char>) -> Seq<char>
    decreases s.len(),
{
    if s.len() > 0 && s.last() == '0' {
        strip_zeros(s.drop_last())
    } else {
        s
    }
}

/// The shortest decimal rendering of `raw / 10^9`: an optional `-`, the
/// integer part, and the fractional digits without trailing zeros after a
/// `.` when there are any (so 2.5 is "2.5", 3 is "3", -0.25 is "-0.25").
#[verifier::opaque]
pub open spec fn fixed_text(raw: int) -> Seq<char> {
    let m = if raw < 0 { -raw } else { raw };
    let ip = (m / SCALE as int) as nat;
    let fp = (m % SCALE as int) as nat;
    let sign = if raw < 0 { seq!['-'] } else { Seq::<char>::empty() };
    if fp == 0 {
        sign + nat_text(ip)
    } else {
        sign + nat_text(ip) + seq!['.'] + strip_zeros(frac9(fp))
    }
}

impl Fixed {
    /// The value in billionths.
    pub open spec fn val(self) -> int {
        self.raw as int
    }

    /// The fixed-point number whose value in billionths is `clamp64(x)`.
    pub open spec fn of(x: int) -> Fixed {
        Fixed { raw: clamp64(x) as i64 }
    }

    /// The decimal text of this number.
    pub open spec fn spec_text(self) -> Seq<char> {
        fixed_text(self.raw as int)
    }

    /// The number `n`, saturating when `n` is beyond the range of `Fixed`.
    pub fn from_int(n: i64) -> (r: Fixed)
        ensures
            r == Fixed::of(n * SCALE as int),
    {
        proof {
            lemma_scale_fits(n as int);
        }
        let x: i128 = (n as i128) * (SCALE as i128);
        Fixed::from_wide(x)
    }

    /// Zero.
    pub fn zero() -> (r: Fixed)
        ensures
            r.raw == 0,
    {
        Fixed { raw: 0 }
    }

    /// The number whose value in billionths is `x`, saturating.
    pub fn from_wide(x: i128) -> (r: Fixed)
        ensures
            r == Fixed::of(x as int),
    {
        if x > i64::MAX as i128 {
            Fixed { raw: i64::MAX }
        } else if x < i64::MIN as i128 {
            Fixed { raw: i64::MIN }
        } else {
            Fixed { raw: x as i64 }
        }
    }

    /// `self + other`, saturating.
    pub fn add(self, other: Fixed) -> (r: Fixed)
        ensures
            r == Fixed::of(self.raw + other.raw),
    {
        Fixed::from_wide(self.raw as i128 + other.raw as i128)
    }

    /// `self - other`, saturating.
    pub fn sub(self, other: Fixed) -> (r: Fixed)
        ensures
            r == Fixed::of(self.raw - other.raw),
    {
        Fixed::from_wide(self.raw as i128 - other.raw as i128)
    }

    /// The larger of the two numbers.
    pub fn max(self, other: Fixed) -> (r: Fixed)
        ensures
            r.raw == if self.raw >= other.raw { self.raw } else { other.raw },
    {
        if self.raw >= other.raw {
            self
        } else {
            other
        }
    }

    /// `self / other` rounded toward zero to nine decimals, saturating.
    pub fn div(self, other: Fixed) -> (r: Fixed)
        requires
            other.raw != 0,
        ensures
            r == Fixed::of(tdiv(self.raw * SCALE as int, other.raw as int)),
    {
        proof {
            lemma_scale_fits(self.raw as int);
        }
        let n: i128 = (self.raw as i128) * (SCALE as i128);
        let d: i128 = other.raw as i128;
        let an: u128 = if n < 0 { (-n) as u128 } else { n as u128 };
        let ad: u128 = if d < 0 { (-d) as u128 } else { d as u128 };
        let q: u128 = an / ad;
        assert(q <= an);
        let sq: i128 = if (n < 0) != (d < 0) { -(q as i128) } else { q as i128 };
        Fixed::from_wide(sq)
    }

    /// `self / d` for a positive integer `d`, rounded toward zero.
    pub fn div_int(self, d: i64) -> (r: Fixed)
        requires
            d > 0,
        ensures
            r == Fixed::of(tdiv(self.raw as int, d as int)),
    {
        let n: i128 = self.raw as i128;
        let an: u128 = if n < 0 { (-n) as u128 } else { n as u128 };
        let q: u128 = an / (d as u128);
        assert(q <= an);
        let sq: i128 = if n < 0 { -(q as i128) } else { q as i128 };
        Fixed::from_wide(sq)
    }

    /// `self < other`.
    pub fn lt(self, other: Fixed) -> (b: bool)
        ensures
            b == (self.raw < other.raw),
    {
        self.raw < other.raw
    }

    /// The decimal text of this number (2.5 is "2.5", 3 is "3").
    pub fn text(&self) -> (s: String)
        ensures
            s@ == self.spec_text(),
    {
        reveal(fixed_text);
        let mut out = String::new();
        let neg = self.raw < 0;
        let m: u128 = if neg {
            ((-((self.raw as i128) + 1)) as u128) + 1
        } else {
            self.raw as u128
        };
        assert(m == if self.raw < 0 { -self.raw } else { self.raw as int });
        if neg {
            string_push(&mut out, '-');
        }
        let ip = m / (SCALE as u128);
        let fp = m % (SCALE as u128);
        push_nat_text(&mut out, ip);
        if fp != 0 {
            string_push(&mut out, '.');
            let digits = frac_digits(fp as u64);
            let s = string_from_chars(digits.as_slice());
            out.append(s.as_str());
        }
        assert(out@ =~= self.spec_text());
        out
    }
}

/// A value of `i64` times 10^9 stays well within `i128`.
pub proof fn lemma_scale_fits(n: int)
    requires
        i64::MIN <= n <= i64::MAX,
    ensures
        -10_000_000_000_000_000_000_000_000_000 < n * 1_000_000_000 < 10_000_000_000_000_000_000_000_000_000,
{
    assert(-10_000_000_000_000_000_000_000_000_000 < n * 1_000_000_000 < 10_000_000_000_000_000_000_000_000_000) by (nonlinear_arith)
        requires
            i64::MIN <= n <= i64::MAX,
    ;
}

proof fn lemma_pow10_pos(k: nat)
    ensures
        pow10(k) >= 1,
    decreases k,
{
    if k > 0 {
        lemma_pow10_pos((k - 1) as nat);
    }
}

proof fn lemma_pow10_step(k: nat)
    requires
        k >= 1,
    ensures
        pow10(k) == 10 * pow10((k - 1) as nat),
        pow10(k) / 10 == pow10((k - 1) as nat),
{
}

proof fn lemma_pow10_8()
    ensures
        pow10(8) == 100_000_000,
{
    reveal_with_fuel(pow10, 9);
}

/// The fractional digits of `f` (below 10^9), trailing zeros removed.
fn frac_digits(f: u64) -> (v: Vec<char>)
    requires
        f < 1_000_000_000,
    ensures
        v@ == strip_zeros(frac9(f as nat)),
{
    let mut v: Vec<char> = Vec::new();
    let mut p: u64 = 100_000_000;
    let mut i: usize = 0;
    proof {
        lemma_pow10_8();
    }
    while i < 9
        invariant
            i <= 9,
            f < 1_000_000_000,
            i < 9 ==> p == pow10((8 - i) as nat),
            v@.len() == i,
            forall|k: int| 0 <= k < i ==> v@[k] == #[trigger] frac9(f as nat)[k],
        decreases 9 - i,
    {
        proof {
            lemma_pow10_pos((8 - i) as nat);
        }
        let d = ((f / p) % 10) as u8;
        v.push((48u8 + d) as char);
        if i < 8 {
            proof {
                lemma_pow10_step((8 - i) as nat);
            }
            p = p / 10;
        }
        i = i + 1;
    }
    assert(v@ =~= frac9(f as nat));
    while v.len() > 0 && v[v.len() - 1] == '0'
        invariant
            strip_zeros(v@) == strip_zeros(frac9(f as nat)),
        decreases v.len(),
    {
        let ghost before = v@;
        v.pop();
        assert(v@ =~= before.drop_last());
    }
    v
}

} // verus!
