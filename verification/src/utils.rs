use vstd::prelude::*;
use vstd::slice::slice_subrange;

verus! {

/// Little-endian interpretation of two bytes.
pub open spec fn spec_le_u16(b0: u8, b1: u8) -> u16 {
    (b0 + 256 * (b1 as int)) as u16
}

/// Little-endian interpretation of four bytes.
pub open spec fn spec_le_u32(b0: u8, b1: u8, b2: u8, b3: u8) -> u32 {
    (b0 + 256 * (b1 as int) + 65536 * (b2 as int) + 16777216 * (b3 as int)) as u32
}

/// Big-endian interpretation of two bytes.
pub open spec fn spec_be_u16(b0: u8, b1: u8) -> u16 {
    (256 * (b0 as int) + b1) as u16
}

/// Big-endian interpretation of four bytes.
pub open spec fn spec_be_u32(b0: u8, b1: u8, b2: u8, b3: u8) -> u32 {
    (16777216 * (b0 as int) + 65536 * (b1 as int) + 256 * (b2 as int) + b3) as u32
}

/// The four bytes of a 32-bit value in little-endian order.
pub open spec fn spec_u32_le_bytes(x: u32) -> Seq<u8> {
    seq![
        (x % 256) as u8,
        ((x / 256) % 256) as u8,
        ((x / 65536) % 256) as u8,
        ((x / 16777216) % 256) as u8,
    ]
}

/// Reads a little-endian u16 from the first two bytes of `input`.
pub fn read_le_u16(input: &[u8]) -> (r: u16)
    requires
        input@.len() >= 2,
    ensures
        r == spec_le_u16(input@[0], input@[1]),
{
    input[0] as u16 + 256 * (input[1] as u16)
}

/// Reads a little-endian u32 from the first four bytes of `input`.
pub fn read_le_u32(input: &[u8]) -> (r: u32)
    requires
        input@.len() >= 4,
    ensures
        r == spec_le_u32(input@[0], input@[1], input@[2], input@[3]),
{
    input[0] as u32 + 256 * (input[1] as u32) + 65536 * (input[2] as u32) + 16777216 * (
    input[3] as u32)
}

/// Reads a big-endian u16 from the first two bytes of `input`.
pub fn read_be_u16(input: &[u8]) -> (r: u16)
    requires
        input@.len() >= 2,
    ensures
        r == spec_be_u16(input@[0], input@[1]),
{
    256 * (input[0] as u16) + input[1] as u16
}

/// Reads a big-endian u32 from the first four bytes of `input`.
pub fn read_be_u32(input: &[u8]) -> (r: u32)
    requires
        input@.len() >= 4,
    ensures
        r == spec_be_u32(input@[0], input@[1], input@[2], input@[3]),
{
    16777216 * (input[0] as u32) + 65536 * (input[1] as u32) + 256 * (input[2] as u32) + input[3] as u32
}

/// Reads a big-endian u32 from the front of `input` and advances the slice
/// past the four bytes that were consumed.
pub fn read_be_u32_mut(input: &mut &[u8]) -> (r: u32)
    requires
        old(input)@.len() >= 4,
    ensures
        r == spec_be_u32(old(input)@[0], old(input)@[1], old(input)@[2], old(input)@[3]),
        final(input)@ == old(input)@.subrange(4, old(input)@.len() as int),
{
    let r = read_be_u32(*input);
    *input = slice_subrange(*input, 4, input.len());
    r
}

/// Builds the four little-endian bytes of a 32-bit value.
pub fn u32_to_le_bytes(x: u32) -> (r: Vec<u8>)
    ensures
        r@ == spec_u32_le_bytes(x),
{
    let mut r: Vec<u8> = Vec::new();
    r.push((x % 256) as u8);
    r.push(((x / 256) % 256) as u8);
    r.push(((x / 65536) % 256) as u8);
    r.push(((x / 16777216) % 256) as u8);
    proof {
        assert(r@ =~= spec_u32_le_bytes(x));
    }
    r
}

} // verus!
