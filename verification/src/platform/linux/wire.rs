//! Fixed-width integers in the byte order of the machine, as the kernel writes them.

use vstd::endian::{endianness, Endian};
use vstd::prelude::*;

verus! {

/// The order in which the bytes of an integer stand in memory.
#[derive(Clone, Copy, Debug, PartialEq, Eq, Structural)]
pub enum ByteOrder {
    /// Lowest byte first.
    Little,
    /// Highest byte first.
    Big,
}

/// The byte order of the machine that the program runs on.
pub open spec fn native_order() -> ByteOrder {
    match endianness() {
        Endian::Little => ByteOrder::Little,
        Endian::Big => ByteOrder::Big,
    }
}

/// The two bytes at `at`, as a number.
pub open spec fn u16_at(order: ByteOrder, s: Seq<u8>, at: int) -> int {
    match order {
        ByteOrder::Little => s[at] + 0x100 * s[at + 1],
        ByteOrder::Big => 0x100 * s[at] + s[at + 1],
    }
}

/// The four bytes at `at`, as a number.
pub open spec fn u32_at(order: ByteOrder, s: Seq<u8>, at: int) -> int {
    match order {
        ByteOrder::Little => s[at] + 0x100 * s[at + 1] + 0x1_0000 * s[at + 2] + 0x100_0000 * s[at
            + 3],
        ByteOrder::Big => 0x100_0000 * s[at] + 0x1_0000 * s[at + 1] + 0x100 * s[at + 2] + s[at + 3],
    }
}

/// The four bytes at `at`, as a number in two's complement.
pub open spec fn i32_at(order: ByteOrder, s: Seq<u8>, at: int) -> int {
    let n = u32_at(order, s, at);
    if n < 0x8000_0000 {
        n
    } else {
        n - 0x1_0000_0000
    }
}

/// The bytes of a two-byte number.
pub open spec fn u16_bytes(order: ByteOrder, n: u16) -> Seq<u8> {
    let low = (n % 0x100) as u8;
    let high = (n / 0x100) as u8;
    match order {
        ByteOrder::Little => seq![low, high],
        ByteOrder::Big => seq![high, low],
    }
}

/// The bytes of a four-byte number.
pub open spec fn u32_bytes(order: ByteOrder, n: u32) -> Seq<u8> {
    let low = (n % 0x1_0000) as u16;
    let high = (n / 0x1_0000) as u16;
    match order {
        ByteOrder::Little => u16_bytes(order, low) + u16_bytes(order, high),
        ByteOrder::Big => u16_bytes(order, high) + u16_bytes(order, low),
    }
}

/// A two-byte number reads back from where its bytes were written.
pub proof fn law_u16_reads_back(order: ByteOrder, before: Seq<u8>, n: u16, after: Seq<u8>)
    ensures
        u16_at(order, before + u16_bytes(order, n) + after, before.len() as int) == n,
{
    let s = before + u16_bytes(order, n) + after;
    let at = before.len() as int;
    assert(s[at] == u16_bytes(order, n)[0]);
    assert(s[at + 1] == u16_bytes(order, n)[1]);
}

/// A four-byte number reads back from where its bytes were written.
pub proof fn law_u32_reads_back(order: ByteOrder, before: Seq<u8>, n: u32, after: Seq<u8>)
    ensures
        u32_at(order, before + u32_bytes(order, n) + after, before.len() as int) == n,
{
    let s = before + u32_bytes(order, n) + after;
    let at = before.len() as int;
    assert(s[at] == u32_bytes(order, n)[0]);
    assert(s[at + 1] == u32_bytes(order, n)[1]);
    assert(s[at + 2] == u32_bytes(order, n)[2]);
    assert(s[at + 3] == u32_bytes(order, n)[3]);
}

/// `u16::from_ne_bytes` reads two bytes in the byte order of the machine.
#[verifier::external_body]
fn u16_from_ne_bytes(bytes: [u8; 2]) -> (n: u16)
    ensures
        n == u16_at(native_order(), bytes@, 0),
{
    u16::from_ne_bytes(bytes)
}

impl ByteOrder {
    /// The byte order of the machine.
    pub fn native() -> (order: ByteOrder)
        ensures
            order == native_order(),
    {
        if u16_from_ne_bytes([1u8, 0u8]) == 1 {
            ByteOrder::Little
        } else {
            ByteOrder::Big
        }
    }
}

/// Reads the two bytes at `at`.
pub fn read_u16(order: ByteOrder, s: &[u8], at: usize) -> (n: u16)
    requires
        at + 2 <= s@.len(),
    ensures
        n == u16_at(order, s@, at as int),
{
    let a = s[at] as u16;
    let b = s[at + 1] as u16;
    match order {
        ByteOrder::Little => a + 0x100 * b,
        ByteOrder::Big => 0x100 * a + b,
    }
}

/// Reads the four bytes at `at`.
pub fn read_u32(order: ByteOrder, s: &[u8], at: usize) -> (n: u32)
    requires
        at + 4 <= s@.len(),
    ensures
        n == u32_at(order, s@, at as int),
{
    let a = s[at] as u32;
    let b = s[at + 1] as u32;
    let c = s[at + 2] as u32;
    let d = s[at + 3] as u32;
    match order {
        ByteOrder::Little => a + 0x100 * b + 0x1_0000 * c + 0x100_0000 * d,
        ByteOrder::Big => 0x100_0000 * a + 0x1_0000 * b + 0x100 * c + d,
    }
}

/// Reads the four bytes at `at` in two's complement.
pub fn read_i32(order: ByteOrder, s: &[u8], at: usize) -> (n: i32)
    requires
        at + 4 <= s@.len(),
    ensures
        n == i32_at(order, s@, at as int),
{
    let n: u32 = read_u32(order, s, at);
    if n < 0x8000_0000 {
        n as i32
    } else {
        (n as i64 - 0x1_0000_0000) as i32
    }
}

/// Appends the bytes of a two-byte number.
pub fn write_u16(order: ByteOrder, out: &mut Vec<u8>, n: u16)
    ensures
        final(out)@ == old(out)@ + u16_bytes(order, n),
{
    let low = (n % 0x100) as u8;
    let high = (n / 0x100) as u8;
    match order {
        ByteOrder::Little => {
            out.push(low);
            out.push(high);
        },
        ByteOrder::Big => {
            out.push(high);
            out.push(low);
        },
    }
    assert(out@ =~= old(out)@ + u16_bytes(order, n));
}

/// Appends the bytes of a four-byte number.
pub fn write_u32(order: ByteOrder, out: &mut Vec<u8>, n: u32)
    ensures
        final(out)@ == old(out)@ + u32_bytes(order, n),
{
    let low = (n % 0x1_0000) as u16;
    let high = (n / 0x1_0000) as u16;
    match order {
        ByteOrder::Little => {
            write_u16(order, out, low);
            write_u16(order, out, high);
        },
        ByteOrder::Big => {
            write_u16(order, out, high);
            write_u16(order, out, low);
        },
    }
    assert(out@ =~= old(out)@ + u32_bytes(order, n));
}

} // verus!
