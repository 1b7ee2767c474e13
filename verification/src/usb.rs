//! The USB serial-number string: the device identifier rendered as
//! lowercase hexadecimal.
//!
//! Reading the hardware identifier registers is left to the caller; this is
//! the encoding, two hex digits per byte.

use vstd::prelude::*;

verus! {

/// The lowercase hex digit for a nibble.
pub open spec fn hex_digit(n: u8) -> u8
    recommends
        n < 16,
{
    if n < 10 {
        (0x30 + n) as u8
    } else {
        (0x57 + n) as u8
    }
}

/// The lowercase hex rendering of `s`: two digits per byte, high nibble
/// first.
pub open spec fn hex_of(s: Seq<u8>) -> Seq<u8> {
    Seq::new(2 * s.len(), |i: int| if i % 2 == 0 {
        hex_digit(s[i / 2] >> 4u8)
    } else {
        hex_digit(s[i / 2] & 0xFu8)
    })
}

/// The lowercase hex digit for a nibble.
fn hex_digit_of(n: u8) -> (r: u8)
    requires
        n < 16,
    ensures
        r == hex_digit(n),
{
    if n < 10 {
        0x30 + n
    } else {
        0x57 + n
    }
}

/// The USB serial-number bytes for a device identifier: its lowercase hex
/// rendering.
pub fn serial_string_from_device_id(id: &[u8]) -> (r: Vec<u8>)
    ensures
        r@ == hex_of(id@),
{
    let mut out: Vec<u8> = Vec::new();
    let mut i: usize = 0;
    while i < id.len()
        invariant
            i <= id@.len(),
            out@.len() == 2 * i,
            forall|j: int| 0 <= j < 2 * i ==> out@[j] == hex_of(id@)[j],
        decreases id@.len() - i,
    {
        let b = id[i];
        proof {
            assert((b >> 4u8) < 16) by (bit_vector);
            assert((b & 0xFu8) < 16) by (bit_vector);
        }
        out.push(hex_digit_of(b >> 4));
        out.push(hex_digit_of(b & 0xF));
        i = i + 1;
    }
    proof {
        assert(out@ =~= hex_of(id@));
    }
    out
}

} // verus!
