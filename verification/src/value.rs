//! Constant values, and how literals denote them.
pub mod laws;

use crate::error::{Error, ErrorView};
use crate::list::{clamp_to_usize, List};
use crate::types::{ResolvedType, UIntType};
use vstd::prelude::*;

verus! {

/// An unsigned integer of 256 bits, as four digits to the base of two to the power of 64.
#[derive(Clone, Copy, Debug, PartialEq, Eq, Hash, Structural)]
pub struct U256 {
    /// The digits, least significant first.
    pub d0: u64,
    pub d1: u64,
    pub d2: u64,
    pub d3: u64,
}

/// Two to the power of 64.
#[verifier::inline]
pub open spec fn base() -> nat {
    0x1_0000_0000_0000_0000nat
}

impl U256 {
    /// The number that the digits denote.
    pub open spec fn value(self) -> nat {
        self.d0 as nat + base() * (self.d1 as nat + base() * (self.d2 as nat + base() * (
        self.d3 as nat)))
    }
}

/// The number of values of 256 bits.
#[verifier::inline]
pub open spec fn limit_256() -> nat {
    0x1_0000_0000_0000_0000_0000_0000_0000_0000_0000_0000_0000_0000_0000_0000_0000_0000nat
}

/// Multiply a digit by `factor` and add `carry`: the new digit and the new carry.
fn scale_digit(digit: u64, factor: u64, carry: u64) -> (result: (u64, u64))
    requires
        factor <= 16,
        carry < 16,
    ensures
        result.0 + base() * result.1 == digit * factor + carry,
        factor > 0 && carry < factor ==> result.1 < factor,
{
    assert(digit * factor <= digit * 16) by (nonlinear_arith)
        requires
            factor <= 16,
    ;
    let product: u128 = digit as u128 * factor as u128 + carry as u128;
    let low: u64 = (product % 0x1_0000_0000_0000_0000) as u64;
    let high: u64 = (product / 0x1_0000_0000_0000_0000) as u64;
    proof {
        if factor > 0 && carry < factor {
            assert(product < 0x1_0000_0000_0000_0000 * factor) by (nonlinear_arith)
                requires
                    product == digit * factor + carry,
                    carry < factor,
                    digit <= 0xffff_ffff_ffff_ffff,
            ;
            assert(high < factor);
        }
    }
    (low, high)
}

impl U256 {
    /// The number zero.
    pub fn zero() -> (result: U256)
        ensures
            result.value() == 0,
    {
        U256 { d0: 0, d1: 0, d2: 0, d3: 0 }
    }

    /// Multiply by `factor` and add `digit`, unless the result has more than 256 bits.
    fn scale(self, factor: u64, digit: u64) -> (result: Option<U256>)
        requires
            0 < factor <= 16,
            digit < factor,
        ensures
            match result {
                Some(n) => n.value() == self.value() * factor + digit,
                None => self.value() * factor + digit >= limit_256(),
            },
    {
        let (e0, c0) = scale_digit(self.d0, factor, digit);
        let (e1, c1) = scale_digit(self.d1, factor, c0);
        let (e2, c2) = scale_digit(self.d2, factor, c1);
        let (e3, c3) = scale_digit(self.d3, factor, c2);
        let result = U256 { d0: e0, d1: e1, d2: e2, d3: e3 };
        proof {
            lemma_scale(
                self,
                factor as nat,
                digit as nat,
                result,
                c0 as nat,
                c1 as nat,
                c2 as nat,
                c3 as nat,
            );
        }
        if c3 > 0 {
            None
        } else {
            Some(result)
        }
    }
}

/// Multiplication digit by digit, with carries.
proof fn lemma_scale(a: U256, factor: nat, digit: nat, b: U256, c0: nat, c1: nat, c2: nat, c3: nat)
    requires
        b.d0 + base() * c0 == a.d0 * factor + digit,
        b.d1 + base() * c1 == a.d1 * factor + c0,
        b.d2 + base() * c2 == a.d2 * factor + c1,
        b.d3 + base() * c3 == a.d3 * factor + c2,
    ensures
        b.value() + limit_256() * c3 == a.value() * factor + digit,
        c3 > 0 ==> a.value() * factor + digit >= limit_256(),
{
    let x3 = a.d3 as nat;
    let x2 = a.d2 as nat + base() * x3;
    let x1 = a.d1 as nat + base() * x2;
    let f = factor;
    assert((a.d2 as nat + base() * x3) * f == a.d2 * f + base() * (x3 * f)) by (nonlinear_arith);
    assert((a.d1 as nat + base() * x2) * f == a.d1 * f + base() * (x2 * f)) by (nonlinear_arith);
    assert((a.d0 as nat + base() * x1) * f == a.d0 * f + base() * (x1 * f)) by (nonlinear_arith);
}

/// The digits of a number below two to the power of 256.
pub open spec fn u256(n: nat) -> U256 {
    U256 {
        d0: (n % base()) as u64,
        d1: ((n / base()) % base()) as u64,
        d2: (((n / base()) / base()) % base()) as u64,
        d3: ((((n / base()) / base()) / base()) % base()) as u64,
    }
}

/// A number is split into its last digit and the other digits.
proof fn lemma_split(digit: nat, rest: nat)
    requires
        digit < base(),
    ensures
        (digit + base() * rest) % base() == digit,
        (digit + base() * rest) / base() == rest,
{
}

/// The digits of a number are determined by the number.
proof fn lemma_u256(a: U256)
    ensures
        a == u256(a.value()),
        a.value() < limit_256(),
{
    let x3 = a.d3 as nat;
    let x2 = a.d2 as nat + base() * x3;
    let x1 = a.d1 as nat + base() * x2;
    let x0 = a.d0 as nat + base() * x1;
    lemma_split(a.d0 as nat, x1);
    lemma_split(a.d1 as nat, x2);
    lemma_split(a.d2 as nat, x3);
    assert(a.value() == x0);
    assert(a.d3 as nat % base() == a.d3);
}

/// The digits of a number denote the number.
pub proof fn lemma_value_of_digits(n: nat)
    requires
        n < limit_256(),
    ensures
        u256(n).value() == n,
{
    let q1 = n / base();
    let q2 = q1 / base();
    let q3 = q2 / base();
    assert(n == n % base() + base() * q1);
    assert(q1 == q1 % base() + base() * q2);
    assert(q2 == q2 % base() + base() * q3);
    assert(q3 < base());
}

/// An unsigned integer of a type.
#[derive(Clone, Copy, Debug, PartialEq, Eq, Hash, Structural)]
pub struct UIntValue {
    pub ty: UIntType,
    pub number: U256,
}

/// A constant value.
#[derive(Debug, PartialEq, Eq, Hash)]
pub enum Value {
    /// Truth value.
    Boolean(bool),
    /// Unsigned integer.
    UInt(UIntValue),
    /// Array of bytes.
    Bytes(List<u8>),
}

/// Copy a list of bytes.
fn copy_bytes(bytes: &List<u8>) -> (result: List<u8>)
    ensures
        result == *bytes,
    decreases bytes,
{
    match bytes {
        List::Nil => List::Nil,
        List::Cons(head, tail) => List::Cons(*head, Box::new(copy_bytes(tail))),
    }
}

impl Clone for Value {
    fn clone(&self) -> (result: Self)
        ensures
            result == *self,
    {
        match self {
            Value::Boolean(bit) => Value::Boolean(*bit),
            Value::UInt(value) => Value::UInt(*value),
            Value::Bytes(bytes) => Value::Bytes(copy_bytes(bytes)),
        }
    }
}

/// The number of values of an integer type.
pub open spec fn limit(ty: UIntType) -> nat {
    match ty {
        UIntType::U1 => 2,
        UIntType::U2 => 4,
        UIntType::U4 => 16,
        UIntType::U8 => 0x100,
        UIntType::U16 => 0x1_0000,
        UIntType::U32 => 0x1_0000_0000,
        UIntType::U64 => base(),
        UIntType::U128 => 0x1_0000_0000_0000_0000_0000_0000_0000_0000nat,
        UIntType::U256 => limit_256(),
    }
}

/// The value of a digit, if the character is one.
pub open spec fn digit_value(c: char) -> Option<nat> {
    if '0' <= c <= '9' {
        Some((c as nat - '0' as nat) as nat)
    } else if 'a' <= c <= 'f' {
        Some((c as nat - 'a' as nat + 10) as nat)
    } else if 'A' <= c <= 'F' {
        Some((c as nat - 'A' as nat + 10) as nat)
    } else {
        None
    }
}

/// The number that a text denotes to the given base, if all its characters are digits.
pub open spec fn number(text: Seq<char>, radix: nat) -> Option<nat>
    decreases text.len(),
{
    if text.len() == 0 {
        Some(0)
    } else {
        match (number(text.drop_last(), radix), digit_value(text.last())) {
            (Some(n), Some(d)) if d < radix => Some(n * radix + d),
            _ => None,
        }
    }
}

/// The integer type of the given bit width.
pub open spec fn type_of_width(bits: nat) -> Option<UIntType> {
    if bits == 1 {
        Some(UIntType::U1)
    } else if bits == 2 {
        Some(UIntType::U2)
    } else if bits == 4 {
        Some(UIntType::U4)
    } else if bits == 8 {
        Some(UIntType::U8)
    } else if bits == 16 {
        Some(UIntType::U16)
    } else if bits == 32 {
        Some(UIntType::U32)
    } else if bits == 64 {
        Some(UIntType::U64)
    } else if bits == 128 {
        Some(UIntType::U128)
    } else if bits == 256 {
        Some(UIntType::U256)
    } else {
        None
    }
}

/// The bytes that pairs of hexadecimal digits denote.
pub open spec fn hex_bytes(text: Seq<char>) -> List<u8>
    decreases text.len(),
{
    if text.len() < 2 {
        List::Nil
    } else {
        match (digit_value(text[0]), digit_value(text[1])) {
            (Some(high), Some(low)) => List::Cons(
                (high * 16 + low) as u8,
                Box::new(hex_bytes(text.skip(2))),
            ),
            _ => List::Nil,
        }
    }
}

/// The integer of a type that a text denotes to the given base.
pub open spec fn uint_value(text: Seq<char>, radix: nat, ty: UIntType) -> Result<
    UIntValue,
    ErrorView,
> {
    match number(text, radix) {
        None => Err(Error::CannotParse(text)),
        Some(n) => if n < limit(ty) {
            Ok(UIntValue { ty, number: u256(n) })
        } else {
            Err(Error::IntegerOutOfBounds(ty))
        },
    }
}

/// The integer that a decimal literal denotes at a type.
pub open spec fn decimal_value(text: Seq<char>, ty: UIntType) -> Result<UIntValue, ErrorView> {
    if text.len() == 0 {
        Err(Error::CannotParse(text))
    } else {
        uint_value(text, 10, ty)
    }
}

/// The integer that a bit string denotes at a type.
pub open spec fn binary_value(text: Seq<char>, ty: UIntType) -> Result<UIntValue, ErrorView> {
    match type_of_width(text.len()) {
        None => Err(Error::BitStringPow2(clamp_to_usize(text.len()))),
        Some(bits) => if bits != ty {
            Err(
                Error::ExpressionTypeMismatch(ResolvedType::UInt(ty), ResolvedType::UInt(bits)),
            )
        } else {
            uint_value(text, 2, ty)
        },
    }
}

/// The number of bytes of a value that a hexadecimal literal can denote.
pub open spec fn byte_width(ty: ResolvedType) -> Option<nat> {
    match ty {
        ResolvedType::UInt(n) if n.width() >= 8 => Some((n.width() / 8) as nat),
        ResolvedType::Array(element, n) if *element == ResolvedType::UInt(UIntType::U8) => Some(
            n as nat,
        ),
        _ => None,
    }
}

/// The value that a hexadecimal literal denotes at a type.
pub open spec fn hexadecimal_value(text: Seq<char>, ty: ResolvedType) -> Result<Value, ErrorView> {
    match byte_width(ty) {
        Some(bytes) if text.len() == 2 * bytes => match ty {
            ResolvedType::UInt(uint) => match uint_value(text, 16, uint) {
                Err(e) => Err(e),
                Ok(value) => Ok(Value::UInt(value)),
            },
            _ => if number(text, 16) is Some {
                Ok(Value::Bytes(hex_bytes(text)))
            } else {
                Err(Error::CannotParse(text))
            },
        },
        _ => Err(Error::ExpressionUnexpectedType(ty)),
    }
}

/// The value of a digit, if the character is one.
fn parse_digit(c: char) -> (result: Option<u64>)
    ensures
        match result {
            Some(d) => digit_value(c) == Some(d as nat) && d < 16,
            None => digit_value(c) is None,
        },
{
    if '0' <= c && c <= '9' {
        Some(c as u64 - '0' as u64)
    } else if 'a' <= c && c <= 'f' {
        Some(c as u64 - 'a' as u64 + 10)
    } else if 'A' <= c && c <= 'F' {
        Some(c as u64 - 'A' as u64 + 10)
    } else {
        None
    }
}

/// A number that a text denotes.
enum Number {
    /// The text holds a character that is no digit.
    Invalid,
    /// The number has more than 256 bits.
    TooLarge,
    /// The number.
    Is(U256),
}

/// Check a number that was read from a text.
spec fn is_number(result: Number, text: Seq<char>, radix: nat) -> bool {
    match result {
        Number::Invalid => number(text, radix) is None,
        Number::TooLarge => number(text, radix) matches Some(n) && n >= limit_256(),
        Number::Is(a) => number(text, radix) == Some(a.value()),
    }
}

/// Once a text holds a character that is no digit, it denotes no number.
proof fn lemma_invalid(text: Seq<char>, i: int, radix: nat)
    requires
        0 <= i <= text.len(),
        number(text.take(i), radix) is None,
    ensures
        number(text, radix) is None,
    decreases text.len() - i,
{
    if i < text.len() {
        assert(text.take(i + 1).drop_last() =~= text.take(i));
        lemma_invalid(text, i + 1, radix);
    } else {
        assert(text.take(i) =~= text);
    }
}

/// Read a number to the given base.
fn parse_number(text: &str, radix: u64) -> (result: Number)
    requires
        2 <= radix <= 16,
    ensures
        is_number(result, text@, radix as nat),
{
    let mut result: Number = Number::Is(U256::zero());
    assert(text@.take(0) =~= Seq::<char>::empty());
    for c in it: text.chars()
        invariant
            2 <= radix <= 16,
            it.seq() == text@,
            !(result is Invalid),
            is_number(result, text@.take(it.index() as int), radix as nat),
    {
        let ghost i = it.index() as int;
        proof {
            assert(text@.take(i + 1).drop_last() =~= text@.take(i));
        }
        match parse_digit(c) {
            Some(d) if d < radix => {
                result = match result {
                    Number::Is(a) => match a.scale(radix, d) {
                        Some(b) => Number::Is(b),
                        None => Number::TooLarge,
                    },
                    other => {
                        proof {
                            let n = number(text@.take(i), radix as nat)->0;
                            assert(n * radix + d >= n) by (nonlinear_arith)
                                requires
                                    radix >= 2,
                            ;
                        }
                        other
                    },
                };
            },
            _ => {
                proof {
                    lemma_invalid(text@, i + 1, radix as nat);
                }
                return Number::Invalid;
            },
        }
    }
    assert(text@.take(text@.len() as int) =~= text@);
    result
}


impl U256 {
    /// Check whether the number is a value of an integer type.
    fn fits(self, ty: UIntType) -> (result: bool)
        ensures
            result == (self.value() < limit(ty)),
    {
        proof {
            lemma_u256(self);
        }
        let is_64 = self.d1 == 0 && self.d2 == 0 && self.d3 == 0;
        match ty {
            UIntType::U1 => is_64 && self.d0 < 2,
            UIntType::U2 => is_64 && self.d0 < 4,
            UIntType::U4 => is_64 && self.d0 < 16,
            UIntType::U8 => is_64 && self.d0 < 0x100,
            UIntType::U16 => is_64 && self.d0 < 0x1_0000,
            UIntType::U32 => is_64 && self.d0 < 0x1_0000_0000,
            UIntType::U64 => is_64,
            UIntType::U128 => self.d2 == 0 && self.d3 == 0,
            UIntType::U256 => true,
        }
    }
}

/// The outcome of reading an integer, as its contract states it.
pub open spec fn is_uint(
    result: Result<UIntValue, Error>,
    expected: Result<UIntValue, ErrorView>,
) -> bool {
    match result {
        Ok(value) => expected == Ok::<UIntValue, ErrorView>(value),
        Err(e) => expected == Err::<UIntValue, ErrorView>(e@),
    }
}

/// Read an integer of a type to the given base.
fn parse_uint(text: &str, radix: u64, ty: UIntType) -> (result: Result<UIntValue, Error>)
    requires
        2 <= radix <= 16,
    ensures
        is_uint(result, uint_value(text@, radix as nat, ty)),
{
    match parse_number(text, radix) {
        Number::Invalid => Err(Error::CannotParse(text.to_owned())),
        Number::TooLarge => Err(Error::IntegerOutOfBounds(ty)),
        Number::Is(number) => {
            proof {
                lemma_u256(number);
            }
            if number.fits(ty) {
                Ok(UIntValue { ty, number })
            } else {
                Err(Error::IntegerOutOfBounds(ty))
            }
        },
    }
}

/// The integer type of the given bit width.
fn find_type_of_width(bits: usize) -> (result: Option<UIntType>)
    ensures
        result == type_of_width(bits as nat),
{
    if bits == 1 {
        Some(UIntType::U1)
    } else if bits == 2 {
        Some(UIntType::U2)
    } else if bits == 4 {
        Some(UIntType::U4)
    } else if bits == 8 {
        Some(UIntType::U8)
    } else if bits == 16 {
        Some(UIntType::U16)
    } else if bits == 32 {
        Some(UIntType::U32)
    } else if bits == 64 {
        Some(UIntType::U64)
    } else if bits == 128 {
        Some(UIntType::U128)
    } else if bits == 256 {
        Some(UIntType::U256)
    } else {
        None
    }
}

impl UIntValue {
    /// Create an integer from a decimal literal and a type.
    ///
    /// ## Errors
    ///
    /// * [`Error::CannotParse`] The literal is empty, or a character is no decimal digit.
    /// * [`Error::IntegerOutOfBounds`] The number is no value of the type.
    pub fn parse_decimal(text: &str, ty: UIntType) -> (result: Result<UIntValue, Error>)
        ensures
            is_uint(result, decimal_value(text@, ty)),
    {
        if text.is_empty() {
            return Err(Error::CannotParse(text.to_owned()));
        }
        parse_uint(text, 10, ty)
    }

    /// Create an integer from a bit string and a type.
    ///
    /// ## Errors
    ///
    /// * [`Error::BitStringPow2`] No integer type has as many bits as the string.
    /// * [`Error::ExpressionTypeMismatch`] Another integer type has as many bits as the string.
    /// * [`Error::CannotParse`] A character is no bit.
    pub fn parse_binary(text: &str, ty: UIntType) -> (result: Result<UIntValue, Error>)
        ensures
            is_uint(result, binary_value(text@, ty)),
    {
        let bits: usize = text.unicode_len();
        match find_type_of_width(bits) {
            None => Err(Error::BitStringPow2(bits)),
            Some(bit_ty) => {
                if bit_ty != ty {
                    Err(
                        Error::ExpressionTypeMismatch(
                            ResolvedType::UInt(ty),
                            ResolvedType::UInt(bit_ty),
                        ),
                    )
                } else {
                    parse_uint(text, 2, ty)
                }
            },
        }
    }
}

/// If a text denotes a number, then all its characters are digits.
pub proof fn lemma_all_digits(text: Seq<char>, radix: nat, i: int)
    requires
        number(text, radix) is Some,
        0 <= i < text.len(),
    ensures
        digit_value(text[i]) matches Some(d) && d < radix,
    decreases text.len(),
{
    if i < text.len() - 1 {
        lemma_all_digits(text.drop_last(), radix, i);
    }
}

/// There is a byte for each pair of hexadecimal digits.
pub proof fn lemma_hex_bytes_len(text: Seq<char>, n: nat)
    requires
        forall|i: int| 0 <= i < text.len() ==> digit_value(#[trigger] text[i]) is Some,
        text.len() == 2 * n,
    ensures
        hex_bytes(text)@.len() == n,
    decreases n,
{
    if n > 0 {
        let rest = text.skip(2);
        assert forall|i: int| 0 <= i < rest.len() implies digit_value(
            #[trigger] rest[i],
        ) is Some by {
            assert(rest[i] == text[i + 2]);
        }
        lemma_hex_bytes_len(rest, (n - 1) as nat);
        assert(digit_value(text[0]) is Some);
        assert(digit_value(text[1]) is Some);
    }
}

/// Read the bytes that pairs of hexadecimal digits denote, starting at the given character.
fn parse_hex_bytes(text: &str, start: usize, end: usize) -> (result: List<u8>)
    requires
        number(text@, 16) is Some,
        end == text@.len(),
        start <= end,
    ensures
        result == hex_bytes(text@.skip(start as int)),
    decreases end - start,
{
    if end - start < 2 {
        return List::Nil;
    }
    proof {
        lemma_all_digits(text@, 16, start as int);
        lemma_all_digits(text@, 16, start + 1);
        assert(text@.skip(start as int).skip(2) =~= text@.skip(start + 2));
    }
    match (parse_digit(text.get_char(start)), parse_digit(text.get_char(start + 1))) {
        (Some(high), Some(low)) => List::Cons(
            (high * 16 + low) as u8,
            Box::new(parse_hex_bytes(text, start + 2, end)),
        ),
        _ => List::Nil,
    }
}

impl Value {
    /// Create a value from a hexadecimal literal and a type.
    ///
    /// ## Errors
    ///
    /// * [`Error::ExpressionUnexpectedType`] The type is neither that of integers of whole bytes
    ///   nor that of byte arrays, or its values have another number of bytes than the literal.
    /// * [`Error::CannotParse`] A character is no hexadecimal digit.
    pub fn parse_hexadecimal(text: &str, ty: &ResolvedType) -> (result: Result<Value, Error>)
        ensures
            match result {
                Ok(value) => hexadecimal_value(text@, *ty) == Ok::<Value, ErrorView>(value),
                Err(e) => hexadecimal_value(text@, *ty) == Err::<Value, ErrorView>(e@),
            },
    {
        let n: usize = text.unicode_len();
        match ty {
            ResolvedType::UInt(uint) => {
                let bits: usize = uint.bit_width();
                if bits >= 8 && n == 2 * (bits / 8) {
                    let value = parse_uint(text, 16, *uint)?;
                    return Ok(Value::UInt(value));
                }
            },
            ResolvedType::Array(element, size) => {
                if element.same(&ResolvedType::UInt(UIntType::U8)) && n % 2 == 0 && n / 2 == *size {
                    return match parse_number(text, 16) {
                        Number::Invalid => Err(Error::CannotParse(text.to_owned())),
                        _ => {
                            assert(text@.skip(0) =~= text@);
                            Ok(Value::Bytes(parse_hex_bytes(text, 0, n)))
                        },
                    };
                }
            },
            _ => {},
        }
        Err(Error::ExpressionUnexpectedType(ty.clone()))
    }
}

} // verus!
