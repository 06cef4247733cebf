use crate::variant::VariantType;
use vstd::arithmetic::div_mod::{lemma_basic_div, lemma_div_denominator, lemma_div_is_ordered, lemma_div_multiples_vanish};
use vstd::arithmetic::power2::{lemma2_to64, lemma2_to64_rest, lemma_pow2_adds, lemma_pow2_pos, lemma_pow2_strictly_increases, pow2};
use vstd::bits::{lemma_u64_shl_is_mul, lemma_u64_shr_is_div};
use vstd::prelude::*;

verus! {

broadcast use vstd::string::group_string_axioms;

/// The decimal digit characters.
pub open spec fn decimal_digits() -> Seq<char> {
    seq!['0', '1', '2', '3', '4', '5', '6', '7', '8', '9']
}

pub open spec fn is_decimal_digit(c: char) -> bool {
    '0' as u32 <= c as u32 <= '9' as u32
}

/// The value of a decimal digit character.
pub open spec fn digit_value(c: char) -> int {
    c as u32 - '0' as u32
}

/// The value of a string of decimal digits, most significant first.
pub open spec fn digits_value(s: Seq<char>) -> int
    decreases s.len(),
{
    if s.len() == 0 {
        0
    } else {
        digits_value(s.drop_last()) * 10 + digit_value(s.last())
    }
}

/// At least one character, each a decimal digit.
pub open spec fn all_decimal_digits(s: Seq<char>) -> bool {
    s.len() > 0 && forall|i: int| 0 <= i < s.len() ==> is_decimal_digit(#[trigger] s[i])
}

/// The integer a text denotes: an optional `+` or `-` followed by at
/// least one decimal digit, and nothing else.
pub open spec fn int_text_value(s: Seq<char>) -> Option<int> {
    if s.len() > 0 && s[0] == '-' && all_decimal_digits(s.drop_first()) {
        Some(-digits_value(s.drop_first()))
    } else if s.len() > 0 && s[0] == '+' && all_decimal_digits(s.drop_first()) {
        Some(digits_value(s.drop_first()))
    } else if all_decimal_digits(s) {
        Some(digits_value(s))
    } else {
        None
    }
}

/// What parsing a text as an `i64` gives: the integer it denotes, where
/// that fits.
pub open spec fn parsed_i64(s: Seq<char>) -> Option<i64> {
    match int_text_value(s) {
        Some(v) => if i64::MIN <= v <= i64::MAX {
            Some(v as i64)
        } else {
            None
        },
        None => None,
    }
}

/// The decimal digits of a natural number, most significant first, with no
/// leading zero.
pub open spec fn digits_text(n: nat) -> Seq<char>
    decreases n,
{
    if n < 10 {
        seq![decimal_digits()[n as int]]
    } else {
        digits_text(n / 10).push(decimal_digits()[(n % 10) as int])
    }
}

/// The decimal text of an integer: a `-` for a negative one, then its
/// digits.
pub open spec fn int_text(v: int) -> Seq<char> {
    if v < 0 {
        seq!['-'] + digits_text((-v) as nat)
    } else {
        digits_text(v as nat)
    }
}

/// Relies on `str::parse::<i64>` (`i64`'s `FromStr`): an optional sign,
/// then decimal digits, within the range of `i64`; anything else is an
/// error.
#[verifier::external_body]
fn parse_i64(s: &str) -> (r: Option<i64>)
    ensures
        r == parsed_i64(s@),
{
    s.parse::<i64>().ok()
}

/// Relies on `i64`'s `Display` through `to_string`: decimal, with a
/// leading `-` for negative numbers.
#[verifier::external_body]
fn i64_text(v: i64) -> (r: String)
    ensures
        r@ == int_text(v as int),
{
    v.to_string()
}

/// The sign bit of a double's bit pattern.
pub open spec fn real_negative(bits: u64) -> bool {
    bits >> 63u64 == 1
}

/// The biased exponent of a double's bit pattern.
pub open spec fn real_exponent(bits: u64) -> u64 {
    (bits >> 52u64) & 0x7ffu64
}

/// The fraction of a double's bit pattern.
pub open spec fn real_fraction(bits: u64) -> u64 {
    bits & 0xf_ffff_ffff_ffffu64
}

/// The magnitude of a finite double, rounded toward zero.
pub open spec fn real_magnitude_floor(bits: u64) -> int {
    if real_exponent(bits) == 0 {
        0
    } else {
        ((real_fraction(bits) + pow2(52)) * pow2(real_exponent(bits) as nat)) as int / pow2(1075) as int
    }
}

/// A double converted to `i64` as Rust's `as` does: rounded toward zero,
/// saturated at the bounds, with NaN giving zero.
pub open spec fn real_to_i64(bits: u64) -> i64 {
    if real_exponent(bits) == 0x7ff {
        if real_fraction(bits) != 0 {
            0
        } else if real_negative(bits) {
            i64::MIN
        } else {
            i64::MAX
        }
    } else {
        let t = if real_negative(bits) {
            -real_magnitude_floor(bits)
        } else {
            real_magnitude_floor(bits)
        };
        if t < i64::MIN {
            i64::MIN
        } else if t > i64::MAX {
            i64::MAX
        } else {
            t as i64
        }
    }
}

/// A double given by its bit pattern, converted to `i64`.
pub fn real_bits_to_i64(bits: u64) -> (r: i64)
    ensures
        r == real_to_i64(bits),
{
    let negative = bits >> 63u64 == 1;
    let exponent = (bits >> 52u64) & 0x7ffu64;
    let fraction = bits & 0xf_ffff_ffff_ffffu64;
    if exponent == 0x7ff {
        return if fraction != 0 {
            0
        } else if negative {
            i64::MIN
        } else {
            i64::MAX
        };
    }
    assert(fraction < 0x10_0000_0000_0000u64) by (bit_vector)
        requires
            fraction == bits & 0xf_ffff_ffff_ffffu64,
    ;
    assert(exponent <= 0x7ff) by (bit_vector)
        requires
            exponent == (bits >> 52u64) & 0x7ffu64,
    ;
    proof {
        lemma2_to64();
        lemma2_to64_rest();
    }
    let m = fraction | 0x10_0000_0000_0000u64;
    assert(m == fraction + 0x10_0000_0000_0000u64) by (bit_vector)
        requires
            fraction < 0x10_0000_0000_0000u64,
            m == fraction | 0x10_0000_0000_0000u64,
    ;
    let ghost e = exponent as nat;
    let ghost scaled = m as int * pow2(e);
    proof {
        lemma_pow2_pos(e);
        lemma_pow2_pos(1075);
    }
    if exponent < 1023 {
        proof {
            if exponent != 0 {
                if e < 1022 {
                    lemma_pow2_strictly_increases(e, 1022);
                }
                lemma_pow2_adds(53, 1022);
                assert(scaled < pow2(53) * pow2(1022)) by (nonlinear_arith)
                    requires
                        scaled == m as int * pow2(e),
                        m < pow2(53),
                        0 < pow2(e) <= pow2(1022),
                ;
                lemma_basic_div(scaled, pow2(1075) as int);
            }
        }
        return 0;
    }
    if exponent >= 1086 {
        proof {
            if e > 1086 {
                lemma_pow2_strictly_increases(1086, e);
            }
            lemma_pow2_adds(52, 1086);
            lemma_pow2_adds(63, 1075);
            assert(scaled >= pow2(52) * pow2(1086)) by (nonlinear_arith)
                requires
                    scaled == m as int * pow2(e),
                    m >= pow2(52),
                    pow2(e) >= pow2(1086),
                    pow2(1086) > 0,
            ;
            assert(pow2(52) * pow2(1086) == pow2(63) * pow2(1075));
            lemma_div_is_ordered((pow2(63) * pow2(1075)) as int, scaled, pow2(1075) as int);
            lemma_div_multiples_vanish(pow2(63) as int, pow2(1075) as int);
            assert(pow2(1075) * pow2(63) == pow2(63) * pow2(1075)) by (nonlinear_arith);
        }
        return if negative {
            i64::MIN
        } else {
            i64::MAX
        };
    }
    let magnitude: u64 = if exponent <= 1075 {
        let k = 1075 - exponent;
        proof {
            lemma_u64_shr_is_div(m, k);
            lemma_pow2_adds(e, k as nat);
            lemma_pow2_pos(k as nat);
            lemma_div_denominator(scaled, pow2(e) as int, pow2(k as nat) as int);
            assert(scaled == pow2(e) * m) by (nonlinear_arith)
                requires
                    scaled == m as int * pow2(e),
            ;
            lemma_div_multiples_vanish(m as int, pow2(e) as int);
        }
        m >> k
    } else {
        let k = exponent - 1075;
        proof {
            if k < 10 {
                lemma_pow2_strictly_increases(k as nat, 10);
            }
            assert(m * pow2(k as nat) < 0x8000_0000_0000_0000) by (nonlinear_arith)
                requires
                    m < 0x20_0000_0000_0000,
                    pow2(k as nat) <= 1024,
            ;
            lemma_u64_shl_is_mul(m, k);
            lemma_pow2_adds(k as nat, 1075);
            assert(scaled == pow2(1075) * (m * pow2(k as nat))) by (nonlinear_arith)
                requires
                    scaled == m as int * pow2(e),
                    pow2(e) == pow2(k as nat) * pow2(1075),
            ;
            lemma_div_multiples_vanish((m * pow2(k as nat)) as int, pow2(1075) as int);
        }
        m << k
    };
    assert(magnitude == real_magnitude_floor(bits));
    assert(magnitude < 0x8000_0000_0000_0000u64);
    if negative {
        -(magnitude as i64)
    } else {
        magnitude as i64
    }
}

/// The value of one component field: one of the five scalar kinds.
/// A real is held as the bit pattern of an IEEE 754 double.
#[derive(Debug, PartialEq)]
pub enum ComponentValue {
    Nil,
    Int(i64),
    String(String),
    Bool(bool),
    Real(u64),
}

impl Clone for ComponentValue {
    fn clone(&self) -> (r: Self)
        ensures
            r == *self,
    {
        match self {
            ComponentValue::Nil => ComponentValue::Nil,
            ComponentValue::Int(v) => ComponentValue::Int(*v),
            ComponentValue::String(v) => ComponentValue::String(v.clone()),
            ComponentValue::Bool(v) => ComponentValue::Bool(*v),
            ComponentValue::Real(v) => ComponentValue::Real(*v),
        }
    }
}

impl Default for ComponentValue {
    fn default() -> (r: Self)
        ensures
            r == ComponentValue::Nil,
    {
        ComponentValue::Nil
    }
}

impl ComponentValue {
    pub open spec fn kind(&self) -> VariantType {
        match self {
            ComponentValue::Nil => VariantType::Nil,
            ComponentValue::Int(_) => VariantType::Int,
            ComponentValue::String(_) => VariantType::String,
            ComponentValue::Bool(_) => VariantType::Bool,
            ComponentValue::Real(_) => VariantType::Real,
        }
    }

    pub fn get_type(&self) -> (r: VariantType)
        ensures
            r == self.kind(),
    {
        match self {
            ComponentValue::Nil => VariantType::Nil,
            ComponentValue::Int(_) => VariantType::Int,
            ComponentValue::String(_) => VariantType::String,
            ComponentValue::Bool(_) => VariantType::Bool,
            ComponentValue::Real(_) => VariantType::Real,
        }
    }

    pub fn set_nil(&mut self)
        ensures
            *final(self) == ComponentValue::Nil,
    {
        *self = ComponentValue::Nil;
    }

    pub fn get_nil(&self) {
    }

    pub fn set_int(&mut self, value: i64)
        ensures
            *final(self) == ComponentValue::Int(value),
    {
        *self = ComponentValue::Int(value);
    }

    pub fn set_string(&mut self, value: String)
        ensures
            *final(self) == ComponentValue::String(value),
    {
        *self = ComponentValue::String(value);
    }

    pub fn set_bool(&mut self, value: bool)
        ensures
            *final(self) == ComponentValue::Bool(value),
    {
        *self = ComponentValue::Bool(value);
    }

    /// Stores a real given as the bit pattern of an IEEE 754 double.
    pub fn set_real(&mut self, value: u64)
        ensures
            *final(self) == ComponentValue::Real(value),
    {
        *self = ComponentValue::Real(value);
    }

    /// The value read as an integer: `Nil` is 0, a bool is 0 or 1, a text
    /// is parsed (0 where it does not parse), a real is rounded toward zero.
    pub open spec fn int_of(&self) -> i64 {
        match self {
            ComponentValue::Nil => 0,
            ComponentValue::Int(v) => *v,
            ComponentValue::String(s) => match parsed_i64(s@) {
                Some(v) => v,
                None => 0,
            },
            ComponentValue::Bool(b) => if *b {
                1
            } else {
                0
            },
            ComponentValue::Real(bits) => real_to_i64(*bits),
        }
    }

    /// The value read as a bool: `Nil` is false, an integer or a real is
    /// true where it is not zero, and a text is true where it is empty.
    pub open spec fn bool_of(&self) -> bool {
        match self {
            ComponentValue::Nil => false,
            ComponentValue::Int(v) => *v != 0,
            ComponentValue::String(s) => s@.len() == 0,
            ComponentValue::Bool(b) => *b,
            ComponentValue::Real(bits) => *bits != 0 && *bits != 0x8000_0000_0000_0000u64,
        }
    }

    /// The value read as text, for every kind but a real: `Nil` is empty,
    /// an integer is written in decimal, a bool is `true` or `false`.
    pub open spec fn text_of(&self) -> Seq<char> {
        match self {
            ComponentValue::Nil => Seq::<char>::empty(),
            ComponentValue::Int(v) => int_text(*v as int),
            ComponentValue::String(s) => s@,
            ComponentValue::Bool(b) => if *b {
                "true"@
            } else {
                "false"@
            },
            ComponentValue::Real(_) => Seq::<char>::empty(),
        }
    }

    pub fn get_int(&self) -> (r: i64)
        ensures
            r == self.int_of(),
    {
        match self {
            ComponentValue::Nil => 0,
            ComponentValue::Int(v) => *v,
            ComponentValue::String(s) => match parse_i64(s.as_str()) {
                Some(v) => v,
                None => 0,
            },
            ComponentValue::Bool(b) => if *b {
                1
            } else {
                0
            },
            ComponentValue::Real(bits) => real_bits_to_i64(*bits),
        }
    }

    pub fn get_bool(&self) -> (r: bool)
        ensures
            r == self.bool_of(),
    {
        match self {
            ComponentValue::Nil => false,
            ComponentValue::Int(v) => *v != 0,
            ComponentValue::String(s) => s.as_str().is_empty(),
            ComponentValue::Bool(b) => *b,
            ComponentValue::Real(bits) => *bits != 0 && *bits != 0x8000_0000_0000_0000u64,
        }
    }

    /// The value as text. A real's text is the shortest decimal that reads
    /// back as the same double, which is floating-point formatting: this
    /// library leaves it to the host.
    pub fn get_string(&self) -> (r: String)
        requires
            !(self is Real),
        ensures
            r@ == self.text_of(),
    {
        match self {
            ComponentValue::Nil => String::new(),
            ComponentValue::Int(v) => i64_text(*v),
            ComponentValue::String(s) => s.clone(),
            ComponentValue::Bool(b) => if *b {
                "true".to_string()
            } else {
                "false".to_string()
            },
            ComponentValue::Real(_) => String::new(),
        }
    }
}

} // verus!
