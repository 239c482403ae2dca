//! Geographic coordinates as exact fractions, and the grid they are
//! quantized to.
use crate::text::{decimal, join_with, joined_with, push_char, to_decimal, views_of};
use vstd::prelude::*;

verus! {

/// A fraction of two unsigned 32-bit numbers, as image metadata stores it.
#[derive(Clone, Copy, Debug, PartialEq, Eq, Structural)]
pub struct Rational {
    pub num: u32,
    pub denom: u32,
}

/// Why a coordinate could not be decoded.
#[derive(Debug)]
pub enum PlaceFinderError {
    /// The values, written out, from which no coordinate can be made.
    Decode(String),
}

/// The mathematical content of a [`Coordinate`]: degrees, minutes and
/// seconds as fractions, and the hemisphere.
pub struct Angle {
    pub degrees: (nat, nat),
    pub minutes: (nat, nat),
    pub seconds: (nat, nat),
    pub negative: bool,
}

impl Angle {
    /// The angle of zero degrees, zero minutes and zero seconds.
    pub open spec fn zero() -> Angle {
        Angle { degrees: (0, 1), minutes: (0, 1), seconds: (0, 1), negative: false }
    }

    /// Every denominator differs from zero, so the angle is a number.
    pub open spec fn is_defined(self) -> bool {
        self.degrees.1 > 0 && self.minutes.1 > 0 && self.seconds.1 > 0
    }

    /// The angle is exactly zero.
    pub open spec fn is_zero(self) -> bool {
        self.degrees.0 == 0 && self.minutes.0 == 0 && self.seconds.0 == 0
    }

    /// Numerator of the angle in ten-thousandths of a degree, over
    /// [`Angle::scaled_denominator`].
    pub open spec fn scaled_numerator(self) -> nat {
        10000 * (3600 * (self.degrees.0 * self.minutes.1 * self.seconds.1) + 60 * (self.minutes.0
            * self.degrees.1 * self.seconds.1) + self.seconds.0 * self.degrees.1 * self.minutes.1)
    }

    /// The common denominator of degrees, minutes and seconds.
    pub open spec fn scaled_denominator(self) -> nat {
        3600 * (self.degrees.1 * self.minutes.1 * self.seconds.1)
    }

    /// The size of the angle in ten-thousandths of a degree, rounded to the
    /// nearest whole number, halves away from zero.
    pub open spec fn magnitude(self) -> nat {
        (2 * self.scaled_numerator() + self.scaled_denominator()) / (2 * self.scaled_denominator())
    }

    /// The grid line of the angle: its size in ten-thousandths of a degree,
    /// limited to what an `i32` holds, with the sign of the hemisphere.
    pub open spec fn grid(self) -> int {
        let m: int = if self.magnitude() > i32::MAX {
            i32::MAX as int
        } else {
            self.magnitude() as int
        };
        if self.negative {
            -m
        } else {
            m
        }
    }
}

/// An angle of latitude or longitude: degrees, minutes and seconds, each a
/// fraction with a denominator other than zero, and the hemisphere.
#[derive(Clone, Copy, Debug)]
pub struct Coordinate {
    degrees: Rational,
    minutes: Rational,
    seconds: Rational,
    negative: bool,
}

impl View for Coordinate {
    type V = Angle;

    closed spec fn view(&self) -> Angle {
        Angle {
            degrees: (self.degrees.num as nat, self.degrees.denom as nat),
            minutes: (self.minutes.num as nat, self.minutes.denom as nat),
            seconds: (self.seconds.num as nat, self.seconds.denom as nat),
            negative: self.negative,
        }
    }
}

/// The product of three 32-bit numbers.
fn product3(a: u32, b: u32, c: u32) -> (r: u128)
    ensures
        r == a * b * c,
        r <= 0xffff_ffff * 0xffff_ffff * 0xffff_ffff,
{
    assert(a * b <= 0xffff_ffff * 0xffff_ffff) by (nonlinear_arith)
        requires
            a <= 0xffff_ffff,
            b <= 0xffff_ffff,
    ;
    let ab: u64 = (a as u64) * (b as u64);
    assert(ab * c <= 0xffff_ffff * 0xffff_ffff * 0xffff_ffff) by (nonlinear_arith)
        requires
            ab <= 0xffff_ffff * 0xffff_ffff,
            c <= 0xffff_ffff,
    ;
    (ab as u128) * (c as u128)
}

impl Coordinate {
    #[verifier::type_invariant]
    spec fn denominators_nonzero(self) -> bool {
        self.degrees.denom != 0 && self.minutes.denom != 0 && self.seconds.denom != 0
    }

    /// The angle of exactly zero degrees.
    pub fn zero() -> (c: Coordinate)
        ensures
            c@ == Angle::zero(),
    {
        Coordinate {
            degrees: Rational { num: 0, denom: 1 },
            minutes: Rational { num: 0, denom: 1 },
            seconds: Rational { num: 0, denom: 1 },
            negative: false,
        }
    }

    /// Makes a coordinate of degrees, minutes and seconds; `None` if one of
    /// the denominators is zero.
    pub fn new(degrees: Rational, minutes: Rational, seconds: Rational, negative: bool) -> (r:
        Option<Coordinate>)
        ensures
            r.is_some() <==> degrees.denom != 0 && minutes.denom != 0 && seconds.denom != 0,
            r matches Some(c) ==> c@ == (Angle {
                degrees: (degrees.num as nat, degrees.denom as nat),
                minutes: (minutes.num as nat, minutes.denom as nat),
                seconds: (seconds.num as nat, seconds.denom as nat),
                negative,
            }),
    {
        if degrees.denom == 0 || minutes.denom == 0 || seconds.denom == 0 {
            None
        } else {
            Some(Coordinate { degrees, minutes, seconds, negative })
        }
    }

    /// The degrees.
    pub fn degrees(&self) -> (r: Rational)
        ensures
            self@.degrees == (r.num as nat, r.denom as nat),
            self@.is_defined(),
    {
        proof {
            use_type_invariant(self);
        }
        self.degrees
    }

    /// The minutes.
    pub fn minutes(&self) -> (r: Rational)
        ensures
            self@.minutes == (r.num as nat, r.denom as nat),
            self@.is_defined(),
    {
        proof {
            use_type_invariant(self);
        }
        self.minutes
    }

    /// The seconds.
    pub fn seconds(&self) -> (r: Rational)
        ensures
            self@.seconds == (r.num as nat, r.denom as nat),
            self@.is_defined(),
    {
        proof {
            use_type_invariant(self);
        }
        self.seconds
    }

    /// Whether the angle lies south of the equator or west of the prime
    /// meridian.
    pub fn is_negative(&self) -> (r: bool)
        ensures
            r == self@.negative,
    {
        self.negative
    }

    /// Whether the angle is exactly zero.
    pub fn is_zero(&self) -> (r: bool)
        ensures
            r == self@.is_zero(),
            self@.is_defined(),
    {
        proof {
            use_type_invariant(self);
        }
        self.degrees.num == 0 && self.minutes.num == 0 && self.seconds.num == 0
    }

    /// The grid line of the angle, in ten-thousandths of a degree.
    pub fn quantize(&self) -> (r: i32)
        ensures
            r == self@.grid(),
            self@.is_defined(),
    {
        proof {
            use_type_invariant(self);
        }
        let d = self.degrees;
        let m = self.minutes;
        let s = self.seconds;
        let deg_part: u128 = product3(d.num, m.denom, s.denom);
        let min_part: u128 = product3(m.num, d.denom, s.denom);
        let sec_part: u128 = product3(s.num, d.denom, m.denom);
        let unit: u128 = product3(d.denom, m.denom, s.denom);
        assert(unit > 0) by (nonlinear_arith)
            requires
                unit == d.denom * m.denom * s.denom,
                d.denom > 0,
                m.denom > 0,
                s.denom > 0,
        ;
        let numerator: u128 = 10000 * (3600 * deg_part + 60 * min_part + sec_part);
        let denominator: u128 = 3600 * unit;
        assert(numerator == self@.scaled_numerator());
        assert(denominator == self@.scaled_denominator());
        let magnitude: u128 = (2 * numerator + denominator) / (2 * denominator);
        let limited: i32 = if magnitude > 2147483647 {
            2147483647
        } else {
            magnitude as i32
        };
        if self.negative {
            -limited
        } else {
            limited
        }
    }
}

/// What a written fraction starts with.
pub const FRACTION_OPEN: &'static str = "Rational(";

/// A fraction written out: numerator, `/` and denominator, in the brackets
/// of `Rational(..)`.
pub open spec fn fraction_text(r: Rational) -> Seq<char> {
    FRACTION_OPEN@ + decimal(r.num as nat) + seq!['/'] + decimal(r.denom as nat) + seq![')']
}

/// The fractions of a list, each written out.
pub open spec fn fraction_texts(values: Seq<Rational>) -> Seq<Seq<char>> {
    Seq::new(values.len(), |i: int| fraction_text(values[i]))
}

/// The list of fractions in square brackets.
pub open spec fn described(values: Seq<Rational>) -> Seq<char> {
    seq!['['] + joined_with(fraction_texts(values), seq![',', ' ']) + seq![']']
}

/// Degrees, minutes and seconds are there, each with a denominator other
/// than zero.
pub open spec fn is_decodable(values: Seq<Rational>) -> bool {
    values.len() >= 3 && values[0].denom != 0 && values[1].denom != 0 && values[2].denom != 0
}

/// The angle that the first three fractions give.
pub open spec fn angle_of(values: Seq<Rational>, negative: bool) -> Angle {
    Angle {
        degrees: (values[0].num as nat, values[0].denom as nat),
        minutes: (values[1].num as nat, values[1].denom as nat),
        seconds: (values[2].num as nat, values[2].denom as nat),
        negative,
    }
}

/// Writes the fractions out, for a message.
pub fn describe(values: &Vec<Rational>) -> (r: String)
    ensures
        r@ == described(values@),
{
    let mut texts: Vec<String> = Vec::new();
    let mut i: usize = 0;
    while i < values.len()
        invariant
            i <= values.len(),
            texts.len() == i,
            forall|j: int| 0 <= j < i ==> (#[trigger] texts@[j])@ == fraction_text(values@[j]),
        decreases values.len() - i,
    {
        let mut text = FRACTION_OPEN.to_owned();
        text.append(to_decimal(values[i].num as u64).as_str());
        push_char(&mut text, '/');
        text.append(to_decimal(values[i].denom as u64).as_str());
        push_char(&mut text, ')');
        texts.push(text);
        i += 1;
    }
    assert(views_of(texts@) =~= fraction_texts(values@));
    let mut out = String::new();
    push_char(&mut out, '[');
    out.append(join_with(&texts, ", ").as_str());
    push_char(&mut out, ']');
    proof {
        reveal_strlit(", ");
        assert(", "@ =~= seq![',', ' ']);
    }
    out
}

/// Makes a coordinate of the degrees, minutes and seconds that `values`
/// starts with. Fails where fewer than three values are there, or where one
/// of the three has the denominator zero; the error then holds the values
/// written out.
pub fn decode_dms(values: &Vec<Rational>, negative: bool) -> (r: Result<
    Coordinate,
    PlaceFinderError,
>)
    ensures
        r.is_ok() <==> is_decodable(values@),
        r matches Ok(c) ==> c@ == angle_of(values@, negative) && c@.is_defined(),
        r matches Err(PlaceFinderError::Decode(text)) ==> text@ == described(values@),
{
    if values.len() >= 3 {
        if let Some(c) = Coordinate::new(values[0], values[1], values[2], negative) {
            return Ok(c);
        }
    }
    Err(PlaceFinderError::Decode(describe(values)))
}

/// An angle of exactly zero lies on grid line zero.
pub proof fn lemma_zero_on_grid_zero(a: Angle)
    requires
        a.is_defined(),
        a.is_zero(),
    ensures
        a.grid() == 0,
{
    let d = a.scaled_denominator();
    assert(d > 0) by (nonlinear_arith)
        requires
            d == 3600 * (a.degrees.1 * a.minutes.1 * a.seconds.1),
            a.degrees.1 > 0,
            a.minutes.1 > 0,
            a.seconds.1 > 0,
    ;
    assert(a.scaled_numerator() == 0) by (nonlinear_arith)
        requires
            a.is_zero(),
    ;
    assert(d / (2 * d) == 0) by (nonlinear_arith)
        requires
            d > 0,
    ;
}

} // verus!
