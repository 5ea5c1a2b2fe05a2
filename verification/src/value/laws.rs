//! What literals denote.
use super::{
    binary_value, byte_width, decimal_value, digit_value, hex_bytes, hexadecimal_value,
    lemma_all_digits, lemma_hex_bytes_len, lemma_value_of_digits, limit, limit_256, number,
    type_of_width, Value,
};
use crate::types::{ResolvedType, UIntType};
use vstd::arithmetic::power::{lemma_pow_adds, pow};
use vstd::prelude::*;

verus! {

/// Whether a character denotes a number as a digit.
pub open spec fn is_digit(c: char, d: nat) -> bool {
    ||| c == '0' && d == 0
    ||| c == '1' && d == 1
    ||| c == '2' && d == 2
    ||| c == '3' && d == 3
    ||| c == '4' && d == 4
    ||| c == '5' && d == 5
    ||| c == '6' && d == 6
    ||| c == '7' && d == 7
    ||| c == '8' && d == 8
    ||| c == '9' && d == 9
    ||| (c == 'a' || c == 'A') && d == 10
    ||| (c == 'b' || c == 'B') && d == 11
    ||| (c == 'c' || c == 'C') && d == 12
    ||| (c == 'd' || c == 'D') && d == 13
    ||| (c == 'e' || c == 'E') && d == 14
    ||| (c == 'f' || c == 'F') && d == 15
}

/// Whether digits, most significant first, denote a number to a base: the sum of the digits, each
/// multiplied by the power of the base that belongs to its position.
pub open spec fn is_numeral(text: Seq<char>, radix: nat, n: int) -> bool
    decreases text.len(),
{
    if text.len() == 0 {
        n == 0
    } else {
        exists|d: nat| #[trigger]
            is_digit(text[0], d) && d < radix && is_numeral(
                text.drop_first(),
                radix,
                n - d * pow(radix as int, (text.len() - 1) as nat),
            )
    }
}

/// Whether a byte is denoted by two hexadecimal digits.
pub open spec fn is_byte(high: char, low: char, byte: u8) -> bool {
    exists|h: nat, l: nat| #[trigger]
        is_digit(high, h) && #[trigger] is_digit(low, l) && byte == 16 * h + l
}

/// The number of bits of an integer type.
pub open spec fn width_of(ty: UIntType) -> nat {
    match ty {
        UIntType::U1 => 1,
        UIntType::U2 => 2,
        UIntType::U4 => 4,
        UIntType::U8 => 8,
        UIntType::U16 => 16,
        UIntType::U32 => 32,
        UIntType::U64 => 64,
        UIntType::U128 => 128,
        UIntType::U256 => 256,
    }
}

/// Characters are read as the digits that they denote.
pub proof fn digits_are_read(c: char, d: nat)
    ensures
        digit_value(c) == Some(d) <==> is_digit(c, d),
{
}

/// The first digit of a number counts with the highest power of the base.
proof fn lemma_first_digit(text: Seq<char>, radix: nat)
    requires
        text.len() > 0,
        number(text, radix) is Some,
    ensures
        ({
            let d = digit_value(text[0]);
            let m = number(text.drop_first(), radix);
            &&& d is Some && d->0 < radix
            &&& m is Some
            &&& number(text, radix)->0 == d->0 * pow(radix as int, (text.len() - 1) as nat) + m->0
        }),
    decreases text.len(),
{
    let last = digit_value(text.last())->0;
    let shorter = text.drop_last();
    reveal_with_fuel(number, 2);
    reveal(pow);
    if text.len() == 1 {
        assert(text.drop_first() =~= Seq::empty());
        assert(shorter =~= Seq::empty());
        let d = digit_value(text[0])->0;
        let p = pow(radix as int, 0);
        assert(0 * radix == 0 && d * p == d) by (nonlinear_arith)
            requires
                p == 1,
        ;
    } else {
        lemma_first_digit(shorter, radix);
        assert(shorter[0] == text[0]);
        assert(text.drop_first().drop_last() =~= shorter.drop_first());
        assert(text.drop_first().last() == text.last());
        let d = digit_value(text[0])->0;
        let m = number(shorter.drop_first(), radix)->0;
        let p = pow(radix as int, (text.len() - 2) as nat);
        assert(pow(radix as int, (text.len() - 1) as nat) == radix * p);
        assert((d * p + m) * radix + last == d * (radix * p) + (m * radix + last))
            by (nonlinear_arith);
    }
}

/// A text of digits denotes a number.
proof fn lemma_numeral_is_number(text: Seq<char>, radix: nat, n: int)
    requires
        is_numeral(text, radix, n),
    ensures
        forall|i: int|
            0 <= i < text.len() ==> (digit_value(#[trigger] text[i]) matches Some(d) && d < radix),
    decreases text.len(),
{
    if text.len() > 0 {
        let d = choose|d: nat| #[trigger]
            is_digit(text[0], d) && d < radix && is_numeral(
                text.drop_first(),
                radix,
                n - d * pow(radix as int, (text.len() - 1) as nat),
            );
        digits_are_read(text[0], d);
        lemma_numeral_is_number(
            text.drop_first(),
            radix,
            n - d * pow(radix as int, (text.len() - 1) as nat),
        );
        assert forall|i: int| 0 <= i < text.len() implies (digit_value(
            #[trigger] text[i],
        ) matches Some(e) && e < radix) by {
            if i > 0 {
                assert(text.drop_first()[i - 1] == text[i]);
            }
        }
    }
}

/// A text of digits is read as a number.
proof fn lemma_digits_are_number(text: Seq<char>, radix: nat)
    requires
        forall|i: int|
            0 <= i < text.len() ==> (digit_value(#[trigger] text[i]) matches Some(d) && d < radix),
    ensures
        number(text, radix) is Some,
    decreases text.len(),
{
    if text.len() > 0 {
        assert(text[text.len() - 1] == text.last());
        assert forall|i: int| 0 <= i < text.drop_last().len() implies (digit_value(
            #[trigger] text.drop_last()[i],
        ) matches Some(d) && d < radix) by {
            assert(text.drop_last()[i] == text[i]);
        }
        lemma_digits_are_number(text.drop_last(), radix);
    }
}

/// A text denotes a number to a base if and only if its characters are digits of the base, and the
/// number is the sum of the digits, each multiplied by the power of the base of its position.
pub proof fn numerals_are_positional(text: Seq<char>, radix: nat, n: nat)
    ensures
        number(text, radix) == Some(n) <==> is_numeral(text, radix, n as int),
{
    lemma_positional(text, radix, n as int);
}

/// A text denotes a number to a base if and only if its digits do, in their positions.
proof fn lemma_positional(text: Seq<char>, radix: nat, n: int)
    ensures
        (number(text, radix) matches Some(m) && m == n) <==> is_numeral(text, radix, n),
    decreases text.len(),
{
    if text.len() > 0 {
        if is_numeral(text, radix, n) {
            lemma_numeral_is_number(text, radix, n);
            lemma_digits_are_number(text, radix);
        }
        if number(text, radix) is Some {
            lemma_first_digit(text, radix);
            let d = digit_value(text[0])->0;
            let p = pow(radix as int, (text.len() - 1) as nat);
            digits_are_read(text[0], d);
            lemma_positional(text.drop_first(), radix, n - d * p);
            if is_numeral(text, radix, n) {
                let e = choose|e: nat| #[trigger]
                    is_digit(text[0], e) && e < radix && is_numeral(
                        text.drop_first(),
                        radix,
                        n - e * p,
                    );
                assert(e == d);
            }
            if number(text, radix)->0 == n {
                assert(is_digit(text[0], d));
            }
        }
    }
}

/// A power of two with twice the exponent is the square.
proof fn lemma_squared(n: nat, power: int, square: int)
    requires
        pow(2, n) == power,
        power * power == square,
    ensures
        pow(2, n + n) == square,
{
    lemma_pow_adds(2, n, n);
}

/// An integer type has a value for each number below two to the power of its width.
pub proof fn integer_types_have_all_values(ty: UIntType)
    ensures
        limit(ty) == pow(2, width_of(ty)),
        ty.width() == width_of(ty),
{
    assert(pow(2, 1) == 2 && pow(2, 2) == 4 && pow(2, 4) == 16 && pow(2, 8) == 0x100) by {
        reveal_with_fuel(pow, 9);
    }
    lemma_squared(8, 0x100, 0x1_0000);
    lemma_squared(16, 0x1_0000, 0x1_0000_0000);
    lemma_squared(32, 0x1_0000_0000, 0x1_0000_0000_0000_0000);
    lemma_squared(
        64,
        0x1_0000_0000_0000_0000,
        0x1_0000_0000_0000_0000_0000_0000_0000_0000int,
    );
    lemma_squared(
        128,
        0x1_0000_0000_0000_0000_0000_0000_0000_0000int,
        limit_256() as int,
    );
}

/// A bit string has the type of as many bits as it has digits, if there is such a type.
pub proof fn types_of_widths(bits: nat, ty: UIntType)
    ensures
        type_of_width(bits) == Some(ty) <==> width_of(ty) == bits,
{
}

/// A type has no more values than there are numbers of 256 bits.
proof fn lemma_limit(ty: UIntType)
    ensures
        limit(ty) <= limit_256(),
{
}

/// A decimal literal is accepted at an integer type if and only if it is a decimal numeral of at
/// least one digit whose number is smaller than two to the power of the width of the type. It then
/// denotes that number.
pub proof fn decimal_literals_denote_numbers(text: Seq<char>, ty: UIntType)
    ensures
        match decimal_value(text, ty) {
            Ok(value) => {
                &&& text.len() > 0
                &&& value.ty == ty
                &&& is_numeral(text, 10, value.number.value() as int)
                &&& value.number.value() < pow(2, width_of(ty))
            },
            Err(_) => text.len() == 0 || forall|n: int| #[trigger]
                is_numeral(text, 10, n) ==> n >= pow(2, width_of(ty)),
        },
{
    integer_types_have_all_values(ty);
    lemma_limit(ty);
    lemma_uint(text, 10, ty);
}

/// A number that is a value of a type is kept as it is.
proof fn lemma_uint(text: Seq<char>, radix: nat, ty: UIntType)
    ensures
        match super::uint_value(text, radix, ty) {
            Ok(value) => value.ty == ty && is_numeral(text, radix, value.number.value() as int)
                && value.number.value() < limit(ty),
            Err(_) => forall|n: int| #[trigger] is_numeral(text, radix, n) ==> n >= limit(ty),
        },
{
    lemma_limit(ty);
    if let Some(n) = number(text, radix) {
        numerals_are_positional(text, radix, n);
        if n < limit(ty) {
            lemma_value_of_digits(n);
        }
    }
    assert forall|n: int| super::uint_value(text, radix, ty) is Err && #[trigger] is_numeral(
        text,
        radix,
        n,
    ) implies n >= limit(ty) by {
        lemma_positional(text, radix, n);
    }
}

/// A bit string is accepted at an integer type if and only if it has as many digits as the type has
/// bits, and they are digits to the base of two. It then denotes its number.
pub proof fn bit_strings_denote_numbers(text: Seq<char>, ty: UIntType)
    ensures
        match binary_value(text, ty) {
            Ok(value) => {
                &&& text.len() == width_of(ty)
                &&& value.ty == ty
                &&& is_numeral(text, 2, value.number.value() as int)
            },
            Err(_) => text.len() != width_of(ty) || forall|n: int| !#[trigger] is_numeral(text, 2, n),
        },
{
    types_of_widths(text.len(), ty);
    lemma_uint(text, 2, ty);
    integer_types_have_all_values(ty);
    if text.len() == width_of(ty) {
        assert forall|n: int| binary_value(text, ty) is Err implies !#[trigger] is_numeral(
            text,
            2,
            n,
        ) by {
            if is_numeral(text, 2, n) {
                lemma_numeral_is_small(text, 2, n);
            }
        }
    }
}

/// A numeral is smaller than the power of the base that belongs to the number of its digits.
proof fn lemma_numeral_is_small(text: Seq<char>, radix: nat, n: int)
    requires
        is_numeral(text, radix, n),
    ensures
        0 <= n < pow(radix as int, text.len()),
    decreases text.len(),
{
    reveal(pow);
    if text.len() > 0 {
        let p = pow(radix as int, (text.len() - 1) as nat);
        let d = choose|d: nat| #[trigger]
            is_digit(text[0], d) && d < radix && is_numeral(text.drop_first(), radix, n - d * p);
        lemma_numeral_is_small(text.drop_first(), radix, n - d * p);
        assert(pow(radix as int, text.len()) == radix * p);
        assert(0 <= d * p && d * p + p <= radix * p) by (nonlinear_arith)
            requires
                d < radix,
                p > 0,
        ;
    }
}

/// The bytes of a hexadecimal literal are those that its pairs of digits denote, in their order.
proof fn lemma_bytes(text: Seq<char>, n: nat)
    requires
        forall|i: int| 0 <= i < text.len() ==> digit_value(#[trigger] text[i]) is Some,
        text.len() == 2 * n,
    ensures
        hex_bytes(text)@.len() == n,
        forall|i: int|
            0 <= i < n ==> is_byte(text[2 * i], text[2 * i + 1], #[trigger] hex_bytes(text)@[i]),
    decreases n,
{
    lemma_hex_bytes_len(text, n);
    if n > 0 {
        let rest = text.skip(2);
        assert forall|i: int| 0 <= i < rest.len() implies digit_value(
            #[trigger] rest[i],
        ) is Some by {
            assert(rest[i] == text[i + 2]);
        }
        lemma_bytes(rest, (n - 1) as nat);
        let bytes = hex_bytes(text)@;
        assert forall|i: int| 0 <= i < n implies is_byte(
            text[2 * i],
            text[2 * i + 1],
            #[trigger] bytes[i],
        ) by {
            if i == 0 {
                let h = digit_value(text[0])->0;
                let l = digit_value(text[1])->0;
                digits_are_read(text[0], h);
                digits_are_read(text[1], l);
                assert(is_digit(text[0], h) && is_digit(text[1], l));
                assert(h * 16 + l < 256);
                assert(bytes[0] == (h * 16 + l) as u8);
            } else {
                assert(bytes[i] == hex_bytes(rest)@[i - 1]);
                assert(rest[2 * (i - 1)] == text[2 * i]);
                assert(rest[2 * (i - 1) + 1] == text[2 * i + 1]);
            }
        }
    }
}

/// A hexadecimal literal is accepted at an integer type of at least eight bits if it has a digit
/// for each four bits of the type, and at an array of bytes if it has two digits for each byte. It
/// then denotes its number, or the bytes that its pairs of digits denote, in their order.
pub proof fn hexadecimal_literals_denote_values(text: Seq<char>, ty: ResolvedType)
    ensures
        match hexadecimal_value(text, ty) {
            Ok(Value::UInt(value)) => {
                &&& ty == ResolvedType::UInt(value.ty)
                &&& width_of(value.ty) >= 8
                &&& text.len() * 4 == width_of(value.ty)
                &&& is_numeral(text, 16, value.number.value() as int)
            },
            Ok(Value::Bytes(bytes)) => {
                &&& ty matches ResolvedType::Array(element, n) && *element == ResolvedType::UInt(
                    UIntType::U8,
                ) && bytes@.len() == n
                &&& text.len() == 2 * bytes@.len()
                &&& forall|i: int|
                    0 <= i < bytes@.len() ==> is_byte(
                        text[2 * i],
                        text[2 * i + 1],
                        #[trigger] bytes@[i],
                    )
            },
            Ok(Value::Boolean(_)) => false,
            Err(_) => {
                ||| forall|n: int| !#[trigger] is_numeral(text, 16, n)
                ||| match ty {
                    ResolvedType::UInt(uint) => width_of(uint) < 8 || text.len() * 4 != width_of(
                        uint,
                    ),
                    ResolvedType::Array(element, n) => *element != ResolvedType::UInt(UIntType::U8)
                        || text.len() != 2 * n,
                    _ => true,
                }
            },
        },
{
    assert(byte_width(ty) matches Some(bytes) ==> (ty matches ResolvedType::UInt(uint) ==> bytes * 8
        == uint.width()));
    match ty {
        ResolvedType::UInt(uint) => {
            integer_types_have_all_values(uint);
            lemma_uint(text, 16, uint);
            assert forall|n: int|
                text.len() * 4 == width_of(uint) && width_of(uint) >= 8 && hexadecimal_value(
                    text,
                    ty,
                ) is Err implies !#[trigger] is_numeral(text, 16, n) by {
                if is_numeral(text, 16, n) {
                    lemma_numeral_is_small(text, 16, n);
                    lemma_base_sixteen(text.len());
                }
            }
        },
        _ => {
            if number(text, 16) is Some {
                assert forall|i: int| 0 <= i < text.len() implies digit_value(
                    #[trigger] text[i],
                ) is Some by {
                    lemma_all_digits(text, 16, i);
                }
                if text.len() % 2 == 0 {
                    lemma_bytes(text, (text.len() / 2) as nat);
                }
            }
            assert forall|n: int| number(text, 16) is None implies !#[trigger] is_numeral(
                text,
                16,
                n,
            ) by {
                lemma_positional(text, 16, n);
            }
        },
    }
}

/// Sixteen is the fourth power of two.
proof fn lemma_base_sixteen(n: nat)
    ensures
        pow(16, n) == pow(2, n * 4),
    decreases n,
{
    reveal(pow);
    if n > 0 {
        lemma_base_sixteen((n - 1) as nat);
        lemma_pow_adds(2, 4, ((n - 1) * 4) as nat);
        assert(pow(2, 4) == 16) by {
            reveal_with_fuel(pow, 5);
        }
        assert(((n - 1) * 4) as nat + 4 == n * 4);
    }
}

} // verus!
