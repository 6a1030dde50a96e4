//! Exact decimal numbers: a signed integer mantissa together with a
//! base-ten scale, so that a value is `mantissa / 10^scale`. The range
//! mirrors the 96-bit decimals that the arithmetic backend works on, so
//! every well-formed `Number` converts to a backend decimal and back
//! without loss.

use vstd::prelude::*;

verus! {

/// The largest mantissa magnitude of a well-formed number: `2^96 - 1`.
pub const MAX_MANTISSA: i128 = 0xFFFF_FFFF_FFFF_FFFF_FFFF_FFFF;

/// The largest scale of a well-formed number.
pub const MAX_SCALE: u32 = 28;

/// An exact decimal: the value `mantissa / 10^scale`.
#[derive(Debug, Clone, Copy, PartialEq, Eq, Structural)]
pub struct Number {
    pub mantissa: i128,
    pub scale: u32,
}

/// Ten to the given power.
pub open spec fn pow10(n: nat) -> int
    decreases n,
{
    if n == 0 {
        1
    } else {
        10 * pow10((n - 1) as nat)
    }
}

/// Ten to any power is positive.
pub proof fn lemma_pow10_pos(n: nat)
    ensures
        pow10(n) >= 1,
    decreases n,
{
    if n > 0 {
        lemma_pow10_pos((n - 1) as nat);
    }
}

/// The value of `a` is strictly below the value of `b`: comparing
/// `a.mantissa / 10^a.scale` with `b.mantissa / 10^b.scale` by cross
/// multiplication.
pub open spec fn spec_lt(a: Number, b: Number) -> bool {
    a.mantissa * pow10(b.scale as nat) < b.mantissa * pow10(a.scale as nat)
}

impl Number {
    /// A well-formed number stays within the backend's 96-bit mantissa
    /// and its scale bound.
    pub open spec fn wf(self) -> bool {
        &&& -MAX_MANTISSA <= self.mantissa <= MAX_MANTISSA
        &&& self.scale <= MAX_SCALE
    }

    /// The number with the given mantissa and scale.
    pub fn new(mantissa: i128, scale: u32) -> (r: Number)
        ensures
            r == (Number { mantissa, scale }),
    {
        Number { mantissa, scale }
    }

    /// The negation of this number: same scale, negated mantissa. The
    /// one mantissa whose negation has no `i128` form keeps itself, so
    /// that negation is total and its own inverse.
    pub open spec fn spec_negated(self) -> Number {
        Number {
            mantissa: if -self.mantissa <= i128::MAX {
                (-self.mantissa) as i128
            } else {
                i128::MIN
            },
            scale: self.scale,
        }
    }

    /// Negation undoes itself.
    pub proof fn lemma_negated_involutive(self)
        ensures
            self.spec_negated().spec_negated() == self,
    {
    }

    /// Negate the number. Negation is exact.
    pub fn negated(self) -> (r: Number)
        requires
            self.wf(),
        ensures
            r == self.spec_negated(),
            r.wf(),
    {
        Number { mantissa: -self.mantissa, scale: self.scale }
    }
}

/// Whether the character is a decimal digit.
pub open spec fn is_digit(c: char) -> bool {
    '0' as u32 <= c as u32 && c as u32 <= '9' as u32
}

/// The numeric value of a digit character.
pub open spec fn digit_val(c: char) -> int {
    c as u32 - '0' as u32
}

/// Scan the body of a number literal from position `i`, accumulating
/// the mantissa read so far in `m` and the count of digits after the
/// dot in `frac`. `dot` records whether the dot was already seen and
/// `digits` whether any digit was. The result is the mantissa and
/// scale of the whole body, or `None` if the body is not digits with
/// at most one dot and at least one digit.
pub open spec fn lit_scan(
    s: Seq<char>,
    i: nat,
    m: int,
    frac: nat,
    dot: bool,
    digits: bool,
) -> Option<(int, nat)>
    decreases s.len() - i,
{
    if i >= s.len() {
        if digits {
            Some((m, frac))
        } else {
            None
        }
    } else {
        let c = s[i as int];
        if is_digit(c) {
            lit_scan(
                s,
                i + 1,
                m * 10 + digit_val(c),
                if dot {
                    frac + 1
                } else {
                    frac
                },
                dot,
                true,
            )
        } else if c == '.' && !dot {
            lit_scan(s, i + 1, m, frac, true, digits)
        } else {
            None
        }
    }
}

/// The exact decimal value of a number literal's text: an optional
/// leading minus sign, then digits with at most one dot and at least
/// one digit. `None` if the text has another shape, or if its value
/// needs a mantissa or scale beyond the well-formed range.
pub open spec fn spec_literal(s: Seq<char>) -> Option<Number> {
    let neg = s.len() > 0 && s[0] == '-';
    let start: nat = if neg {
        1
    } else {
        0
    };
    match lit_scan(s, start, 0, 0, false, false) {
        Some((m, frac)) => if m <= MAX_MANTISSA && frac <= MAX_SCALE {
            Some(
                Number {
                    mantissa: (if neg {
                        -m
                    } else {
                        m
                    }) as i128,
                    scale: frac as u32,
                },
            )
        } else {
            None
        },
        None => None,
    }
}

/// Scanning a text from position `i + 1` reads the same as scanning
/// the text without its first character from position `i`.
pub proof fn lemma_lit_scan_shift(t: Seq<char>, i: nat, m: int, frac: nat, dot: bool, digits: bool)
    requires
        t.len() >= 1,
    ensures
        lit_scan(t, (i + 1) as nat, m, frac, dot, digits) == lit_scan(
            t.drop_first(),
            i,
            m,
            frac,
            dot,
            digits,
        ),
    decreases t.len() - i,
{
    let u = t.drop_first();
    if i < u.len() {
        assert(t[i as int + 1] == u[i as int]);
        let c = u[i as int];
        if is_digit(c) {
            lemma_lit_scan_shift(
                t,
                i + 1,
                m * 10 + digit_val(c),
                if dot {
                    frac + 1
                } else {
                    frac
                },
                dot,
                true,
            );
        } else if c == '.' && !dot {
            lemma_lit_scan_shift(t, i + 1, m, frac, true, digits);
        }
    }
}

/// The accumulated mantissa and scale only grow over a scan.
pub proof fn lemma_lit_scan_mono(s: Seq<char>, i: nat, m: int, frac: nat, dot: bool, digits: bool)
    requires
        m >= 0,
    ensures
        match lit_scan(s, i, m, frac, dot, digits) {
            Some((m2, frac2)) => m2 >= m && frac2 >= frac,
            None => true,
        },
    decreases s.len() - i,
{
    if i < s.len() {
        let c = s[i as int];
        if is_digit(c) {
            lemma_lit_scan_mono(
                s,
                i + 1,
                m * 10 + digit_val(c),
                if dot {
                    frac + 1
                } else {
                    frac
                },
                dot,
                true,
            );
        } else if c == '.' && !dot {
            lemma_lit_scan_mono(s, i + 1, m, frac, true, digits);
        }
    }
}

/// Once the accumulated mantissa or scale exceeds its bound, the scan
/// can only end beyond a bound too, since both grow monotonically.
proof fn lemma_lit_scan_exceeds(s: Seq<char>, i: nat, m: int, frac: nat, dot: bool, digits: bool)
    requires
        m >= 0,
        m > MAX_MANTISSA || frac > MAX_SCALE,
    ensures
        match lit_scan(s, i, m, frac, dot, digits) {
            Some((m2, frac2)) => m2 > MAX_MANTISSA || frac2 > MAX_SCALE,
            None => true,
        },
    decreases s.len() - i,
{
    if i < s.len() {
        let c = s[i as int];
        if is_digit(c) {
            lemma_lit_scan_exceeds(
                s,
                i + 1,
                m * 10 + digit_val(c),
                if dot {
                    frac + 1
                } else {
                    frac
                },
                dot,
                true,
            );
        } else if c == '.' && !dot {
            lemma_lit_scan_exceeds(s, i + 1, m, frac, true, digits);
        }
    }
}

/// Read the exact decimal value of a number literal's text.
pub fn number_from_literal(text: &Vec<char>) -> (r: Option<Number>)
    ensures
        r == spec_literal(text@),
        (r matches Some(n) ==> n.wf()),
{
    let ghost s = text@;
    let mut i: usize = 0;
    let mut neg = false;
    if text.len() > 0 && text[0] == '-' {
        neg = true;
        i = 1;
    }
    let mut m: i128 = 0;
    let mut frac: u32 = 0;
    let mut dot = false;
    let mut digits = false;
    while i < text.len()
        invariant
            i <= s.len(),
            s == text@,
            0 <= m <= MAX_MANTISSA,
            frac <= MAX_SCALE,
            dot ==> frac <= MAX_SCALE,
            spec_literal(s) == (match lit_scan(s, i as nat, m as int, frac as nat, dot, digits) {
                Some((m2, frac2)) => if m2 <= MAX_MANTISSA && frac2 <= MAX_SCALE {
                    Some(
                        Number {
                            mantissa: (if neg {
                                -m2
                            } else {
                                m2
                            }) as i128,
                            scale: frac2 as u32,
                        },
                    )
                } else {
                    None
                },
                None => None,
            }),
        decreases text.len() - i,
    {
        let c = text[i];
        let cu = c as u32;
        if 48 <= cu && cu <= 57 {
            assert(is_digit(c));
            let d = (cu - 48) as i128;
            assert(digit_val(c) == d as int);
            let m2 = m * 10 + d;
            let frac2 = if dot {
                frac + 1
            } else {
                frac
            };
            if m2 > MAX_MANTISSA || frac2 > MAX_SCALE {
                proof {
                    lemma_lit_scan_exceeds(s, (i + 1) as nat, m2 as int, frac2 as nat, dot, true);
                }
                return None;
            }
            m = m2;
            frac = frac2;
            digits = true;
        } else if c == '.' && !dot {
            dot = true;
        } else {
            return None;
        }
        i = i + 1;
    }
    if !digits {
        return None;
    }
    let mantissa = if neg {
        -m
    } else {
        m
    };
    Some(Number { mantissa, scale: frac })
}

} // verus!
