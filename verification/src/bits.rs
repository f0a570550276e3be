//! Bit fields of register words.
//!
//! A field is named by its place and its count: the field at bits `n + w - 1 ..= n` has
//! the place `2^n`, the weight of its lowest bit, and the count `2^w`, the number of
//! values that it can hold.
use vstd::prelude::*;

verus! {

/// The weight of the bit with the given number, for the bits of a 16-bit word and the
/// one above them.
pub open spec fn weight(bit: int) -> int {
    if bit == 0 {
        1
    } else if bit == 1 {
        2
    } else if bit == 2 {
        4
    } else if bit == 3 {
        8
    } else if bit == 4 {
        16
    } else if bit == 5 {
        32
    } else if bit == 6 {
        64
    } else if bit == 7 {
        128
    } else if bit == 8 {
        256
    } else if bit == 9 {
        512
    } else if bit == 10 {
        1024
    } else if bit == 11 {
        2048
    } else if bit == 12 {
        4096
    } else if bit == 13 {
        8192
    } else if bit == 14 {
        16384
    } else if bit == 15 {
        32768
    } else {
        65536
    }
}

/// What the field with this place and count holds in `word`.
pub open spec fn field(word: int, place: int, count: int) -> int {
    word / place % count
}

/// `word` with `value` in the field with this place and count, and every other bit as it
/// was.
pub open spec fn with_field(word: int, place: int, count: int, value: int) -> int {
    word - field(word, place, count) * place + value * place
}

/// Whether the bit with the given number is set in `word`.
pub open spec fn bit(word: int, number: int) -> bool {
    field(word, weight(number), 2) == 1
}

/// The number that two bytes make, the low byte first.
pub open spec fn pair(low: u8, high: u8) -> int {
    low + 256 * high
}

/// What a 16-bit pattern means in two's complement.
pub open spec fn signed(word: int) -> int {
    if word < 32768 {
        word
    } else {
        word - 65536
    }
}

proof fn lemma_weight_is_pow2(bit: u16)
    requires
        bit <= 16,
    ensures
        weight(bit as int) == vstd::arithmetic::power2::pow2(bit as nat),
{
    vstd::arithmetic::power2::lemma2_to64();
}

/// Shifting a word down and masking it is reading a field.
proof fn lemma_load(word: u16, lsb: u16, width: u16)
    requires
        lsb < 16,
        width < 16,
    ensures
        1u16 << width >= 1,
        ((word >> lsb) & (((1u16 << width) - 1) as u16)) == field(
            word as int,
            weight(lsb as int),
            weight(width as int),
        ),
{
    lemma_weight_is_pow2(lsb);
    lemma_weight_is_pow2(width);
    vstd::arithmetic::power2::lemma2_to64();
    vstd::bits::lemma_u16_shr_is_div(word, lsb);
    vstd::bits::lemma_u16_low_bits_mask_is_mod(word >> lsb, width as nat);
    vstd::bits::lemma_low_bits_mask_values();
    vstd::bits::lemma_u16_shl_is_mul(1u16, width);
}

/// The bits that a field takes up weigh no more than the word.
proof fn lemma_field_bound(word: int, place: int, count: int)
    requires
        0 <= word,
        0 < place,
        0 < count,
    ensures
        0 <= field(word, place, count) < count,
        0 <= field(word, place, count) * place <= word,
{
    let above = word / place;
    vstd::arithmetic::div_mod::lemma_fundamental_div_mod(word, place);
    vstd::arithmetic::div_mod::lemma_div_pos_is_pos(word, place);
    vstd::arithmetic::div_mod::lemma_mod_decreases(above as nat, count as nat);
    assert(0 <= (above % count) * place <= above * place) by (nonlinear_arith)
        requires
            0 <= above % count <= above,
            0 < place,
    ;
    assert(above * place == place * above) by (nonlinear_arith);
}

/// Reads the field of `width` bits whose lowest bit is `lsb`.
#[verifier::allow_in_spec]
pub fn load(word: u16, lsb: u16, width: u16) -> (value: u16)
    requires
        lsb < 16,
        width < 16,
    ensures
        value == field(word as int, weight(lsb as int), weight(width as int)),
        value < weight(width as int),
    returns
        field(word as int, weight(lsb as int), weight(width as int)) as u16,
{
    proof {
        lemma_load(word, lsb, width);
        lemma_field_bound(word as int, weight(lsb as int), weight(width as int));
    }
    (word >> lsb) & ((1u16 << width) - 1)
}

/// Clearing a field and setting it to a shifted value is replacing what it holds.
proof fn lemma_store(word: u16, lsb: u16, width: u16, value: u16, mask: u16)
    requires
        lsb + width <= 16,
        lsb < 16,
        width < 16,
        value < weight(width as int),
        mask == (1u16 << width) - 1,
    ensures
        value <= mask,
        ((word & !(mask << lsb)) | (value << lsb)) == with_field(
            word as int,
            weight(lsb as int),
            weight(width as int),
            value as int,
        ),
{
    let held = (word >> lsb) & mask;
    let place = weight(lsb as int);
    let count = weight(width as int);
    lemma_load(word, lsb, width);
    lemma_weight_is_pow2(lsb);
    lemma_weight_is_pow2(width);
    lemma_field_bound(word as int, place, count);
    vstd::arithmetic::power2::lemma2_to64();
    vstd::bits::lemma_u16_shl_is_mul(1u16, width);
    assert(count * place <= 65536) by {
        vstd::arithmetic::power2::lemma_pow2_adds(lsb as nat, width as nat);
        vstd::arithmetic::mul::lemma_mul_is_commutative(count, place);
        lemma_weight_is_pow2((lsb + width) as u16);
    }
    assert(value * place <= 65535) by (nonlinear_arith)
        requires
            0 <= value < count,
            count * place <= 65536,
            0 < place,
    ;
    vstd::bits::lemma_u16_shl_is_mul(held, lsb);
    vstd::bits::lemma_u16_shl_is_mul(value, lsb);
    assert((word & !(mask << lsb)) | (value << lsb) == word - (held << lsb) + (value << lsb))
        by (bit_vector)
        requires
            held == (word >> lsb) & mask,
            mask == (1u16 << width) - 1,
            value <= mask,
            lsb < 16,
            width < 16,
            lsb + width <= 16,
    ;
}

/// Puts `value` into the field of `width` bits whose lowest bit is `lsb`.
#[verifier::allow_in_spec]
pub fn store(word: u16, lsb: u16, width: u16, value: u16) -> (result: u16)
    requires
        lsb + width <= 16,
        lsb < 16,
        width < 16,
        value < weight(width as int),
    ensures
        result == with_field(word as int, weight(lsb as int), weight(width as int), value as int),
        word < 256 && lsb + width <= 8 ==> result < 256,
    returns
        with_field(word as int, weight(lsb as int), weight(width as int), value as int) as u16,
{
    proof {
        lemma_load(word, lsb, width);
    }
    let mask: u16 = (1u16 << width) - 1;
    let result: u16 = (word & !(mask << lsb)) | (value << lsb);
    proof {
        lemma_store(word, lsb, width, value, mask);
        assert(word < 256 && lsb + width <= 8 ==> result < 256) by (bit_vector)
            requires
                result == (word & !(mask << lsb)) | (value << lsb),
                mask == (1u16 << width) - 1,
                value <= mask,
                lsb < 16,
                width < 16,
        ;
    }
    result
}

/// The 16-bit word that two bytes make, the low byte first.
#[verifier::allow_in_spec]
pub fn join(low: u8, high: u8) -> (word: u16)
    ensures
        word == pair(low, high),
    returns
        pair(low, high) as u16,
{
    let word: u16 = (low as u16) | ((high as u16) << 8);
    proof {
        let l = low as u16;
        let h = high as u16;
        assert(l | (h << 8) == l + 256 * h) by (bit_vector)
            requires
                l < 256,
                h < 256,
        ;
    }
    word
}

/// The number that a 16-bit word stands for in two's complement.
#[verifier::allow_in_spec]
pub fn to_signed(word: u16) -> (number: i16)
    ensures
        number == signed(word as int),
    returns
        signed(word as int) as i16,
{
    proof {
        assert(word < 32768 ==> word as i16 == word) by (bit_vector);
        assert(word >= 32768 ==> word as i16 == word - 65536) by (bit_vector);
    }
    word as i16
}

proof fn lemma_bit(word: u16, number: u16)
    requires
        number < 16,
    ensures
        bit(word as int, number as int) == ((word >> number) & 1 == 1),
{
    lemma_load(word, number, 1);
    assert((1u16 << 1u16) == 2) by (bit_vector);
}

/// Putting a value into a field sets the bits of the field to those of the value and keeps
/// every other bit.
pub proof fn law_with_field_bits(word: u16, lsb: u16, width: u16, value: u16, number: u16)
    requires
        lsb + width <= 16,
        lsb < 16,
        width < 16,
        value < weight(width as int),
        number < 16,
    ensures
        ({
            let result = with_field(
                word as int,
                weight(lsb as int),
                weight(width as int),
                value as int,
            );
            &&& 0 <= result < 65536
            &&& bit(result, number as int) == if lsb <= number < lsb + width {
                bit(value as int, number - lsb)
            } else {
                bit(word as int, number as int)
            }
        }),
{
    lemma_load(word, lsb, width);
    let mask = ((1u16 << width) - 1) as u16;
    lemma_store(word, lsb, width, value, mask);
    let result = (word & !(mask << lsb)) | (value << lsb);
    lemma_bit(result, number);
    lemma_bit(word, number);
    if lsb <= number < lsb + width {
        let inner = (number - lsb) as u16;
        lemma_bit(value, inner);
        assert(((result >> number) & 1 == 1) == ((value >> inner) & 1 == 1)) by (bit_vector)
            requires
                result == (word & !(mask << lsb)) | (value << lsb),
                mask == (1u16 << width) - 1,
                value <= mask,
                lsb < 16,
                width < 16,
                lsb <= number,
                number < 16,
                number < lsb + width,
                inner == number - lsb,
        ;
    } else {
        assert(((result >> number) & 1 == 1) == ((word >> number) & 1 == 1)) by (bit_vector)
            requires
                result == (word & !(mask << lsb)) | (value << lsb),
                mask == (1u16 << width) - 1,
                value <= mask,
                lsb < 16,
                width < 16,
                number < 16,
                lsb + width <= 16,
                number < lsb || number >= lsb + width,
        ;
    }
}

/// Words with the same bits are the same.
pub proof fn law_bits_are_all(a: u16, b: u16)
    requires
        forall|number: int| 0 <= number < 16 ==> bit(a as int, number) == bit(b as int, number),
    ensures
        a == b,
{
    assert forall|number: u16| number < 16 implies (#[trigger] (a >> number) & 1 == 1) == ((b
        >> number) & 1 == 1) by {
        lemma_bit(a, number);
        lemma_bit(b, number);
        assert(bit(a as int, number as int) == bit(b as int, number as int));
    }
    assert(a == b) by (bit_vector)
        requires
            ((a >> 0u16) & 1 == 1) == ((b >> 0u16) & 1 == 1),
            ((a >> 1u16) & 1 == 1) == ((b >> 1u16) & 1 == 1),
            ((a >> 2u16) & 1 == 1) == ((b >> 2u16) & 1 == 1),
            ((a >> 3u16) & 1 == 1) == ((b >> 3u16) & 1 == 1),
            ((a >> 4u16) & 1 == 1) == ((b >> 4u16) & 1 == 1),
            ((a >> 5u16) & 1 == 1) == ((b >> 5u16) & 1 == 1),
            ((a >> 6u16) & 1 == 1) == ((b >> 6u16) & 1 == 1),
            ((a >> 7u16) & 1 == 1) == ((b >> 7u16) & 1 == 1),
            ((a >> 8u16) & 1 == 1) == ((b >> 8u16) & 1 == 1),
            ((a >> 9u16) & 1 == 1) == ((b >> 9u16) & 1 == 1),
            ((a >> 10u16) & 1 == 1) == ((b >> 10u16) & 1 == 1),
            ((a >> 11u16) & 1 == 1) == ((b >> 11u16) & 1 == 1),
            ((a >> 12u16) & 1 == 1) == ((b >> 12u16) & 1 == 1),
            ((a >> 13u16) & 1 == 1) == ((b >> 13u16) & 1 == 1),
            ((a >> 14u16) & 1 == 1) == ((b >> 14u16) & 1 == 1),
            ((a >> 15u16) & 1 == 1) == ((b >> 15u16) & 1 == 1),
    ;
}

/// A word is a byte if and only if none of its upper bits is set.
pub proof fn law_byte_bits(word: u16)
    ensures
        word < 256 <==> forall|number: int| 8 <= number < 16 ==> !#[trigger] bit(
            word as int,
            number,
        ),
{
    lemma_bit(word, 8);
    lemma_bit(word, 9);
    lemma_bit(word, 10);
    lemma_bit(word, 11);
    lemma_bit(word, 12);
    lemma_bit(word, 13);
    lemma_bit(word, 14);
    lemma_bit(word, 15);
    assert(word < 256 <==> {
        &&& (word >> 8u16) & 1 != 1
        &&& (word >> 9u16) & 1 != 1
        &&& (word >> 10u16) & 1 != 1
        &&& (word >> 11u16) & 1 != 1
        &&& (word >> 12u16) & 1 != 1
        &&& (word >> 13u16) & 1 != 1
        &&& (word >> 14u16) & 1 != 1
        &&& (word >> 15u16) & 1 != 1
    }) by (bit_vector);
}

/// The bits of a word are what shifting it down brings to the lowest place.
pub proof fn law_bit_is_shift(word: u16, number: u16)
    requires
        number < 16,
    ensures
        bit(word as int, number as int) == ((word >> number) & 1 == 1),
{
    lemma_bit(word, number);
}

/// Reading a field moves its bits down to the lowest place and drops all others.
pub proof fn law_load_moves_bits(word: u16, lsb: u16, width: u16, number: u16)
    requires
        lsb < 16,
        width < 16,
        number < 16,
    ensures
        ((load(word, lsb, width) >> number) & 1 == 1) == (number < width && lsb + number < 16 && (
        word >> ((lsb + number) as u16)) & 1 == 1),
{
    lemma_load(word, lsb, width);
    lemma_field_bound(word as int, weight(lsb as int), weight(width as int));
    let mask = ((1u16 << width) - 1) as u16;
    let value = (word >> lsb) & mask;
    let source = (lsb + number) as u16;
    assert(((value >> number) & 1 == 1) == (number < width && source < 16 && (word >> source) & 1
        == 1)) by (bit_vector)
        requires
            value == (word >> lsb) & mask,
            mask == (1u16 << width) - 1,
            source == lsb + number,
            lsb < 16,
            width < 16,
            number < 16,
    ;
}

/// Storing a value moves its bits up to the place of the field and keeps all others.
pub proof fn law_store_moves_bits(word: u16, lsb: u16, width: u16, value: u16, number: u16)
    requires
        lsb + width <= 16,
        lsb < 16,
        width < 16,
        value < weight(width as int),
        number < 16,
    ensures
        ((store(word, lsb, width, value) >> number) & 1 == 1) == if lsb <= number < lsb + width {
            (value >> ((number - lsb) as u16)) & 1 == 1
        } else {
            (word >> number) & 1 == 1
        },
{
    law_with_field_bits(word, lsb, width, value, number);
    lemma_bit(store(word, lsb, width, value), number);
    lemma_bit(word, number);
    if lsb <= number < lsb + width {
        lemma_bit(value, (number - lsb) as u16);
    }
}

/// Two bytes make a word of which the first is the low byte.
pub proof fn law_join_keeps_bytes(low: u8, high: u8)
    ensures
        join(low, high) & 0x00FF == low,
        join(low, high) >> 8u16 == high,
{
    let word = join(low, high);
    assert(word & 0x00FF == word % 256 && word >> 8u16 == word / 256) by (bit_vector);
}

/// A word and the number that it stands for have the same bits.
pub proof fn law_to_signed_keeps_bits(word: u16)
    ensures
        to_signed(word) as u16 == word,
{
    assert(word < 32768 ==> word as i16 == word) by (bit_vector);
    assert(word >= 32768 ==> word as i16 == word - 65536) by (bit_vector);
    assert((word as i16) as u16 == word) by (bit_vector);
}

} // verus!
