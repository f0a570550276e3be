//! What changes of registers do, and what they leave alone.
use crate::bits;
use crate::change::{self, Change};
use crate::registers::{
    ACC_CONF, ACC_RANGE, FIFO_CONFIG_0, FIFO_CONFIG_1, FIFO_DOWNS, FIFO_WTM, GYR_CONF, GYR_RANGE,
    INT1_IO_CTRL, INT2_IO_CTRL, INT_MAP_DATA, PWR_CONF, PWR_CTRL,
};
use vstd::prelude::*;

verus! {

impl Change {
    /// Whether the change sets the bit with this number, to whatever value.
    pub open spec fn touches(self, number: int) -> bool {
        match self {
            Change::AccEnabled(_) => number == 2,
            Change::GyrEnabled(_) => number == 1,
            Change::TempEnabled(_) => number == 3,
            Change::PowerSave(_) => number == 0,
            Change::AccOdr(_) => 0 <= number < 4,
            Change::AccBwp(_) => 4 <= number < 7,
            Change::AccFilter(_) => number == 7,
            Change::AccRange(_) => 0 <= number < 2,
            Change::GyrOdr(_) => 0 <= number < 4,
            Change::GyrBwp(_) => 4 <= number < 6,
            Change::GyrNoise(_) => number == 6,
            Change::GyrFilter(_) => number == 7,
            Change::GyrRange(_) => 0 <= number < 3,
            Change::Int1Io(_) => 1 <= number <= 4,
            Change::Int2Io(_) => 1 <= number <= 4,
            Change::Int1Map(_) => 0 <= number <= 3,
            Change::Int2Map(_) => 4 <= number <= 7,
            Change::FifoWatermark(_) => 0 <= number < 13,
            Change::FifoStopOnFull(_) => number == 0,
            Change::FifoTimeEn(_) => number == 1,
            Change::FifoHeaderEn(_) => number == 4,
            Change::FifoAccEn(_) => number == 6,
            Change::FifoGyrEn(_) => number == 7,
            Change::AccFifoDowns(_) => 4 <= number < 7,
            Change::GyrFifoDowns(_) => 0 <= number < 3,
            Change::AccFifoFilt(_) => number == 7,
            Change::GyrFifoFilt(_) => number == 3,
        }
    }
}

spec fn flag_word(on: bool) -> u16 {
    if on {
        1
    } else {
        0
    }
}

/// What `law_change_bits` says, for a change of one field.
proof fn lemma_field(word: u16, lsb: u16, width: u16, value: u16, number: u16)
    requires
        lsb + width <= 16,
        lsb < 16,
        width < 16,
        value < bits::weight(width as int),
        number < 16,
    ensures
        ({
            let place = bits::weight(lsb as int);
            let count = bits::weight(width as int);
            let result = bits::with_field(word as int, place, count, value as int);
            &&& 0 <= result < 65536
            &&& !(lsb <= number < lsb + width) ==> bits::bit(result, number as int) == bits::bit(
                word as int,
                number as int,
            )
            &&& lsb <= number < lsb + width ==> bits::bit(result, number as int) == bits::bit(
                bits::with_field(0, place, count, value as int),
                number as int,
            )
        }),
{
    bits::law_with_field_bits(word, lsb, width, value, number);
    bits::law_with_field_bits(0, lsb, width, value, number);
}

/// What `law_change_bits` says, for a change of four fields of one bit.
proof fn lemma_flags(
    word: u16,
    a: u16,
    on_a: bool,
    b: u16,
    on_b: bool,
    c: u16,
    on_c: bool,
    d: u16,
    on_d: bool,
    number: u16,
)
    requires
        a < 8,
        b < 8,
        c < 8,
        d < 8,
        number < 16,
    ensures
        ({
            let (pa, pb) = (bits::weight(a as int), bits::weight(b as int));
            let (pc, pd) = (bits::weight(c as int), bits::weight(d as int));
            let result = change::with_flags(word as int, pa, on_a, pb, on_b, pc, on_c, pd, on_d);
            let alone = change::with_flags(0, pa, on_a, pb, on_b, pc, on_c, pd, on_d);
            let inside = number == a || number == b || number == c || number == d;
            &&& 0 <= result < 65536
            &&& !inside ==> bits::bit(result, number as int) == bits::bit(
                word as int,
                number as int,
            )
            &&& inside ==> bits::bit(result, number as int) == bits::bit(alone, number as int)
        }),
{
    let (pa, pb) = (bits::weight(a as int), bits::weight(b as int));
    let pc = bits::weight(c as int);
    lemma_field(word, a, 1, flag_word(on_a), number);
    lemma_field(0, a, 1, flag_word(on_a), number);
    let one = bits::with_field(word as int, pa, 2, change::flag(on_a)) as u16;
    let one0 = bits::with_field(0, pa, 2, change::flag(on_a)) as u16;
    lemma_field(one, b, 1, flag_word(on_b), number);
    lemma_field(one0, b, 1, flag_word(on_b), number);
    let two = bits::with_field(one as int, pb, 2, change::flag(on_b)) as u16;
    let two0 = bits::with_field(one0 as int, pb, 2, change::flag(on_b)) as u16;
    lemma_field(two, c, 1, flag_word(on_c), number);
    lemma_field(two0, c, 1, flag_word(on_c), number);
    let three = bits::with_field(two as int, pc, 2, change::flag(on_c)) as u16;
    let three0 = bits::with_field(two0 as int, pc, 2, change::flag(on_c)) as u16;
    lemma_field(three, d, 1, flag_word(on_d), number);
    lemma_field(three0, d, 1, flag_word(on_d), number);
}

#[verifier::opaque]
spec fn acts_on_bits(change: Change, word: u16, number: u16) -> bool {
    let result = change.applied(word as int);
    &&& 0 <= result < 65536
    &&& bits::bit(result, number as int) == if change.touches(number as int) {
        bits::bit(change.applied(0), number as int)
    } else {
        bits::bit(word as int, number as int)
    }
}

proof fn lemma_power_bits(change: Change, word: u16, number: u16)
    requires
        change.spec_address() == PWR_CTRL || change.spec_address() == PWR_CONF,
        number < 16,
    ensures
        acts_on_bits(change, word, number),
{
    reveal(acts_on_bits);
    match change {
        Change::AccEnabled(on) => {
            lemma_field(word, 2, 1, flag_word(on), number);
        },
        Change::GyrEnabled(on) => {
            lemma_field(word, 1, 1, flag_word(on), number);
        },
        Change::TempEnabled(on) => {
            lemma_field(word, 3, 1, flag_word(on), number);
        },
        Change::PowerSave(value) => {
            lemma_field(word, 0, 1, value.code() as u16, number);
        },
        _ => {},
    }
}

proof fn lemma_acc_bits(change: Change, word: u16, number: u16)
    requires
        change.spec_address() == ACC_CONF || change.spec_address() == ACC_RANGE,
        number < 16,
    ensures
        acts_on_bits(change, word, number),
{
    reveal(acts_on_bits);
    match change {
        Change::AccOdr(value) => {
            lemma_field(word, 0, 4, value.code() as u16, number);
        },
        Change::AccBwp(value) => {
            lemma_field(word, 4, 3, value.code() as u16, number);
        },
        Change::AccFilter(value) => {
            lemma_field(word, 7, 1, value.code() as u16, number);
        },
        Change::AccRange(value) => {
            lemma_field(word, 0, 2, value.code() as u16, number);
        },
        _ => {},
    }
}

proof fn lemma_gyr_bits(change: Change, word: u16, number: u16)
    requires
        change.spec_address() == GYR_CONF || change.spec_address() == GYR_RANGE,
        number < 16,
    ensures
        acts_on_bits(change, word, number),
{
    reveal(acts_on_bits);
    match change {
        Change::GyrOdr(value) => {
            lemma_field(word, 0, 4, value.code() as u16, number);
        },
        Change::GyrBwp(value) => {
            lemma_field(word, 4, 2, value.code() as u16, number);
        },
        Change::GyrNoise(value) => {
            lemma_field(word, 6, 1, value.code() as u16, number);
        },
        Change::GyrFilter(value) => {
            lemma_field(word, 7, 1, value.code() as u16, number);
        },
        Change::GyrRange(value) => {
            lemma_field(word, 0, 3, value.code() as u16, number);
        },
        _ => {},
    }
}

proof fn lemma_pin_bits(change: Change, word: u16, number: u16)
    requires
        change.spec_address() == INT1_IO_CTRL || change.spec_address() == INT2_IO_CTRL
            || change.spec_address() == INT_MAP_DATA,
        number < 16,
    ensures
        acts_on_bits(change, word, number),
{
    reveal(acts_on_bits);
    match change {
        Change::Int1Io(pin) => {
            lemma_flags(
                word,
                1,
                pin.active_high,
                2,
                pin.open_drain,
                3,
                pin.output_en,
                4,
                pin.input_en,
                number,
            );
        },
        Change::Int2Io(pin) => {
            lemma_flags(
                word,
                1,
                pin.active_high,
                2,
                pin.open_drain,
                3,
                pin.output_en,
                4,
                pin.input_en,
                number,
            );
        },
        Change::Int1Map(pin) => {
            lemma_flags(
                word,
                1,
                pin.fifo_watermark,
                0,
                pin.fifo_full,
                2,
                pin.data_ready,
                3,
                pin.error,
                number,
            );
        },
        Change::Int2Map(pin) => {
            lemma_flags(
                word,
                5,
                pin.fifo_watermark,
                4,
                pin.fifo_full,
                6,
                pin.data_ready,
                7,
                pin.error,
                number,
            );
        },
        _ => {},
    }
}

proof fn lemma_fifo_config_bits(change: Change, word: u16, number: u16)
    requires
        change.spec_address() == FIFO_CONFIG_0 || change.spec_address() == FIFO_CONFIG_1,
        number < 16,
    ensures
        acts_on_bits(change, word, number),
{
    reveal(acts_on_bits);
    match change {
        Change::FifoStopOnFull(on) => {
            lemma_field(word, 0, 1, flag_word(on), number);
        },
        Change::FifoTimeEn(on) => {
            lemma_field(word, 1, 1, flag_word(on), number);
        },
        Change::FifoHeaderEn(on) => {
            lemma_field(word, 4, 1, flag_word(on), number);
        },
        Change::FifoAccEn(on) => {
            lemma_field(word, 6, 1, flag_word(on), number);
        },
        Change::FifoGyrEn(on) => {
            lemma_field(word, 7, 1, flag_word(on), number);
        },
        _ => {},
    }
}

proof fn lemma_fifo_level_bits(change: Change, word: u16, number: u16)
    requires
        change.spec_address() == FIFO_WTM || change.spec_address() == FIFO_DOWNS,
        number < 16,
    ensures
        acts_on_bits(change, word, number),
{
    reveal(acts_on_bits);
    match change {
        Change::FifoWatermark(level) => {
            lemma_field(word, 0, 13, (level % 8192) as u16, number);
        },
        Change::AccFifoDowns(downs) => {
            lemma_field(word, 4, 3, (downs % 8) as u16, number);
        },
        Change::GyrFifoDowns(downs) => {
            lemma_field(word, 0, 3, (downs % 8) as u16, number);
        },
        Change::AccFifoFilt(on) => {
            lemma_field(word, 7, 1, flag_word(on), number);
        },
        Change::GyrFifoFilt(on) => {
            lemma_field(word, 3, 1, flag_word(on), number);
        },
        _ => {},
    }
}

/// A change keeps every bit that it does not touch, and sets those that it touches to values
/// that do not depend on what the register held.
pub proof fn law_change_bits(change: Change, word: u16, number: u16)
    requires
        number < 16,
    ensures
        0 <= change.applied(word as int) < 65536,
        !change.touches(number as int) ==> bits::bit(
            change.applied(word as int),
            number as int,
        ) == bits::bit(word as int, number as int),
        change.touches(number as int) ==> bits::bit(change.applied(word as int), number as int)
            == bits::bit(change.applied(0), number as int),
{
    let address = change.spec_address();
    if address == PWR_CTRL || address == PWR_CONF {
        lemma_power_bits(change, word, number);
    } else if address == ACC_CONF || address == ACC_RANGE {
        lemma_acc_bits(change, word, number);
    } else if address == GYR_CONF || address == GYR_RANGE {
        lemma_gyr_bits(change, word, number);
    } else if address == INT1_IO_CTRL || address == INT2_IO_CTRL || address == INT_MAP_DATA {
        lemma_pin_bits(change, word, number);
    } else if address == FIFO_CONFIG_0 || address == FIFO_CONFIG_1 {
        lemma_fifo_config_bits(change, word, number);
    } else {
        lemma_fifo_level_bits(change, word, number);
    }
    reveal(acts_on_bits);
}

/// A change of a register of one byte makes a byte of a byte.
pub proof fn law_change_keeps_bytes(change: Change, word: u16)
    requires
        !change.wide(),
        word < 256,
    ensures
        0 <= change.applied(word as int) < 256,
{
    law_change_bits(change, word, 0);
    let result = change.applied(word as int) as u16;
    bits::law_byte_bits(word);
    bits::law_byte_bits(result);
    assert forall|number: int| 8 <= number < 16 implies !#[trigger] bits::bit(
        result as int,
        number,
    ) by {
        law_change_bits(change, word, number as u16);
    }
}

/// A change sets nothing that an equal change has not set: made twice, it is made once.
pub proof fn law_change_is_idempotent(change: Change, word: u16)
    ensures
        change.applied(change.applied(word as int)) == change.applied(word as int),
{
    law_later_change_wins(change, change, word);
}

/// A change that touches all that an earlier one touched undoes it.
pub proof fn law_later_change_wins(earlier: Change, later: Change, word: u16)
    requires
        forall|number: int| #[trigger] earlier.touches(number) ==> later.touches(number),
    ensures
        later.applied(earlier.applied(word as int)) == later.applied(word as int),
{
    law_change_bits(earlier, word, 0);
    law_change_bits(later, word, 0);
    let between = earlier.applied(word as int) as u16;
    law_change_bits(later, between, 0);
    let both = later.applied(between as int) as u16;
    let alone = later.applied(word as int) as u16;
    assert forall|number: int| 0 <= number < 16 implies bits::bit(both as int, number)
        == bits::bit(alone as int, number) by {
        law_change_bits(earlier, word, number as u16);
        law_change_bits(later, word, number as u16);
        law_change_bits(later, between, number as u16);
        assert(earlier.touches(number) ==> later.touches(number));
    }
    bits::law_bits_are_all(both, alone);
}

/// Changes that touch different bits can be made in either order.
pub proof fn law_changes_commute(a: Change, b: Change, word: u16)
    requires
        forall|number: int| #[trigger] a.touches(number) ==> !b.touches(number),
    ensures
        b.applied(a.applied(word as int)) == a.applied(b.applied(word as int)),
{
    law_change_bits(a, word, 0);
    law_change_bits(b, word, 0);
    let after_a = a.applied(word as int) as u16;
    let after_b = b.applied(word as int) as u16;
    law_change_bits(b, after_a, 0);
    law_change_bits(a, after_b, 0);
    let ab = b.applied(after_a as int) as u16;
    let ba = a.applied(after_b as int) as u16;
    assert forall|number: int| 0 <= number < 16 implies bits::bit(ab as int, number) == bits::bit(
        ba as int,
        number,
    ) by {
        law_change_bits(a, word, number as u16);
        law_change_bits(b, word, number as u16);
        law_change_bits(b, after_a, number as u16);
        law_change_bits(a, after_b, number as u16);
        assert(a.touches(number) ==> !b.touches(number));
    }
    bits::law_bits_are_all(ab, ba);
}

} // verus!
