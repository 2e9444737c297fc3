use vstd::prelude::*;

verus! {

/// One palette color in the cylindrical (hue / saturation / lightness)
/// representation. Each channel holds the raw 32-bit pattern of the host's
/// binary32 channel value. The pipeline never does arithmetic on a channel:
/// it only compares, copies and overwrites whole channels, so the bit
/// pattern is the working value, and the host converts to and from its
/// floating-point color types at the boundary.
#[derive(Clone, Copy, PartialEq, Eq, Structural, Debug)]
pub struct CylindricalColor {
    /// Hue channel (periodic, degrees-equivalent).
    pub hue: u32,
    /// Saturation channel.
    pub sat: u32,
    /// Lightness channel.
    pub light: u32,
}

/// An 8-bit-per-channel display color: the final form used for rendering
/// text and terminal escape sequences.
#[derive(Clone, Copy, PartialEq, Eq, Structural, Debug)]
pub struct DisplayColor {
    pub r: u8,
    pub g: u8,
    pub b: u8,
}

/// The key under which a channel's bit pattern is ordered. This is the
/// standard order-preserving transform for binary32 values: patterns with
/// the sign bit set (negative values) are mapped, reversed, below the
/// patterns with the sign bit clear. Comparing keys with `<=` orders
/// channels exactly as the IEEE-754 total order ("totalOrder") does, so
/// every pattern, a quiet-NaN pattern included, has one deterministic
/// place in the order.
pub open spec fn total_order_key(bits: u32) -> u32 {
    if bits >> 31 == 1 {
        !bits
    } else {
        bits | 0x8000_0000
    }
}

/// Channel order: `a` sorts no later than `b`.
pub open spec fn channel_le(a: u32, b: u32) -> bool {
    total_order_key(a) <= total_order_key(b)
}

pub fn exec_total_order_key(bits: u32) -> (k: u32)
    ensures
        k == total_order_key(bits),
{
    if bits >> 31 == 1 {
        !bits
    } else {
        bits | 0x8000_0000
    }
}

pub fn exec_channel_le(a: u32, b: u32) -> (r: bool)
    ensures
        r == channel_le(a, b),
{
    exec_total_order_key(a) <= exec_total_order_key(b)
}

} // verus!
