//! Four-byte unsigned integers as they stand in a container.

use vstd::prelude::*;

verus! {

/// The value of the four bytes `b`, least significant byte first.
pub open spec fn le_value(b: Seq<u8>) -> int {
    b[0] as int + 0x100 * (b[1] as int) + 0x1_0000 * (b[2] as int) + 0x100_0000 * (b[3] as int)
}

/// The value of the four bytes `b`, most significant byte first.
pub open spec fn be_value(b: Seq<u8>) -> int {
    b[3] as int + 0x100 * (b[2] as int) + 0x1_0000 * (b[1] as int) + 0x100_0000 * (b[0] as int)
}

/// The four bytes that stand for `n`, least significant byte first.
pub open spec fn le_bytes(n: int) -> Seq<u8> {
    seq![
        (n % 0x100) as u8,
        (n / 0x100 % 0x100) as u8,
        (n / 0x1_0000 % 0x100) as u8,
        (n / 0x100_0000 % 0x100) as u8,
    ]
}

/// Whether `n` can be written in four bytes.
pub open spec fn fits_u32(n: int) -> bool {
    0 <= n <= u32::MAX
}

/// Four bytes stand for a value that fits in four bytes.
pub proof fn lemma_le_value_fits(b: Seq<u8>)
    ensures
        fits_u32(le_value(b)),
        fits_u32(be_value(b)),
{
}

/// Reading back what was written gives the value that was written.
pub proof fn lemma_le_value_of_le_bytes(n: int)
    requires
        fits_u32(n),
    ensures
        le_bytes(n).len() == 4,
        le_value(le_bytes(n)) == n,
{
}

/// Reads the four bytes of `buf` from `at` on, least significant byte first.
pub fn read_u32_le(buf: &[u8], at: usize) -> (r: u32)
    requires
        at + 4 <= buf@.len(),
    ensures
        r == le_value(buf@.subrange(at as int, at + 4)),
{
    let b0: u32 = buf[at] as u32;
    let b1: u32 = buf[at + 1] as u32;
    let b2: u32 = buf[at + 2] as u32;
    let b3: u32 = buf[at + 3] as u32;
    b0 + 0x100 * b1 + 0x1_0000 * b2 + 0x100_0000 * b3
}

/// `u32::from_ne_bytes`: the four bytes read in the byte order of the
/// machine that runs the program. Which order that is, is not known here:
/// the result is the value with the least significant byte first, or the one
/// with the most significant byte first.
#[verifier::external_body]
fn u32_from_native_bytes(b0: u8, b1: u8, b2: u8, b3: u8) -> (r: u32)
    ensures
        r == le_value(seq![b0, b1, b2, b3]) || r == be_value(seq![b0, b1, b2, b3]),
{
    u32::from_ne_bytes([b0, b1, b2, b3])
}

/// Reads the four bytes of `buf` from `at` on in the machine's own byte
/// order.
pub fn read_u32_native(buf: &[u8], at: usize) -> (r: u32)
    requires
        at + 4 <= buf@.len(),
    ensures
        r == le_value(buf@.subrange(at as int, at + 4)) || r == be_value(
            buf@.subrange(at as int, at + 4),
        ),
{
    u32_from_native_bytes(buf[at], buf[at + 1], buf[at + 2], buf[at + 3])
}

} // verus!
