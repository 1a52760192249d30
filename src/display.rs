//! What a four-digit seven-segment display is sent for a count.
//!
//! Each digit is shown through a shift register, one segment byte at a time,
//! most significant bit first; a cleared bit lights its segment.
use vstd::prelude::*;

verus! {

/// The segment byte that shows decimal digit `d` (common anode: a cleared
/// bit lights its segment).
pub open spec fn segments_of(d: nat) -> u8 {
    if d == 0 {
        0xc0
    } else if d == 1 {
        0xf9
    } else if d == 2 {
        0xa4
    } else if d == 3 {
        0xb0
    } else if d == 4 {
        0x99
    } else if d == 5 {
        0x92
    } else if d == 6 {
        0x82
    } else if d == 7 {
        0xf8
    } else if d == 8 {
        0x80
    } else {
        0x90
    }
}

/// Decimal digit `k` of `value`, counted from the ones.
pub open spec fn digit_of(value: u16, k: nat) -> nat {
    (value as nat / pow10(k)) % 10
}

/// `10` to the power `k`.
pub open spec fn pow10(k: nat) -> nat
    decreases k,
{
    if k == 0 {
        1
    } else {
        10 * pow10((k - 1) as nat)
    }
}

/// Bit `i` of `byte` in the order it is shifted out, most significant first.
pub open spec fn shifted_bit(byte: u8, i: int) -> bool {
    (byte >> ((7 - i) as u8)) & 1 == 1
}

/// The segment byte for one decimal digit.
pub fn segment_code(digit: u16) -> (r: u8)
    requires
        digit < 10,
    ensures
        r == segments_of(digit as nat),
{
    match digit {
        0 => 0xc0,
        1 => 0xf9,
        2 => 0xa4,
        3 => 0xb0,
        4 => 0x99,
        5 => 0x92,
        6 => 0x82,
        7 => 0xf8,
        8 => 0x80,
        _ => 0x90,
    }
}

/// The segment bytes for the four places of `value`, ones first; places
/// above the thousands are not shown.
pub fn digit_codes(value: u16) -> (r: [u8; 4])
    ensures
        forall|k: int| 0 <= k < 4 ==> r@[k] == segments_of(#[trigger] digit_of(value, k as nat)),
{
    assert(pow10(0) == 1 && pow10(1) == 10 && pow10(2) == 100 && pow10(3) == 1000) by {
        reveal_with_fuel(pow10, 4);
    }
    let mut codes = [0u8; 4];
    codes[0] = segment_code(value % 10);
    codes[1] = segment_code(value / 10 % 10);
    codes[2] = segment_code(value / 100 % 10);
    codes[3] = segment_code(value / 1000 % 10);
    assert forall|k: int| 0 <= k < 4 implies codes@[k] == segments_of(
        #[trigger] digit_of(value, k as nat),
    ) by {
        if k == 0 {
            assert(digit_of(value, 0) == (value % 10) as nat);
        } else if k == 1 {
            assert(digit_of(value, 1) == (value / 10 % 10) as nat);
        } else if k == 2 {
            assert(digit_of(value, 2) == (value / 100 % 10) as nat);
        } else {
            assert(digit_of(value, 3) == (value / 1000 % 10) as nat);
        }
    }
    codes
}

/// Whether bit `i` of `byte`, counted from the most significant, is set.
fn bit_from_top(byte: u8, i: u8) -> (r: bool)
    requires
        i < 8,
    ensures
        r == shifted_bit(byte, i as int),
{
    let shift: u8 = 7 - i;
    let r = byte & (1u8 << shift) != 0;
    assert(r == ((byte >> shift) & 1 == 1)) by (bit_vector)
        requires
            shift < 8,
            r == (byte & (1u8 << shift) != 0),
    ;
    r
}

/// The bits of `byte` in the order a shift register is fed them, most
/// significant first.
pub fn serial_bits(byte: u8) -> (r: [bool; 8])
    ensures
        forall|i: int| 0 <= i < 8 ==> r@[i] == shifted_bit(byte, i),
{
    let mut bits = [false; 8];
    let mut i: u8 = 0;
    while i < 8
        invariant
            i <= 8,
            forall|j: int| 0 <= j < i ==> bits@[j] == shifted_bit(byte, j),
        decreases 8 - i,
    {
        bits[i as usize] = bit_from_top(byte, i);
        i = i + 1;
    }
    bits
}

} // verus!
