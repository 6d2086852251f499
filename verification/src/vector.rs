//! Geometric value types. Scalar components are carried as IEEE 754 single
//! precision bit patterns, so that the verified code never computes on
//! floating point itself; the floating-point work happens behind trusted
//! wrappers.

use vstd::prelude::*;

verus! {

/// A three-component vector; each component is an IEEE 754 single precision
/// bit pattern.
#[derive(Clone, Copy, Debug, PartialEq, Eq, Structural)]
pub struct Vec3 {
    pub x: u32,
    pub y: u32,
    pub z: u32,
}

impl Vec3 {
    /// Builds a vector from three component bit patterns.
    pub fn from_bits(x: u32, y: u32, z: u32) -> (r: Vec3)
        ensures
            r == (Vec3 { x, y, z }),
    {
        Vec3 { x, y, z }
    }
}

/// A two-component vector; each component is an IEEE 754 single precision
/// bit pattern.
#[derive(Clone, Copy, Debug, PartialEq, Eq, Structural)]
pub struct Vec2 {
    pub x: u32,
    pub y: u32,
}

impl Vec2 {
    /// Builds a vector from two component bit patterns.
    pub fn from_bits(x: u32, y: u32) -> (r: Vec2)
        ensures
            r == (Vec2 { x, y }),
    {
        Vec2 { x, y }
    }
}

/// The bit pattern of the single precision number that the given text reads
/// as, or `None` where it reads as no number. The reading is a function of
/// the text alone.
pub uninterp spec fn parsed_scalar(s: Seq<u8>) -> Option<u32>;

/// The bit patterns of the components of the normalized form of the vector
/// whose components have the given bit patterns. Single precision
/// multiplication, division and square root are exactly determined by their
/// operands, so the result is a function of the three bit patterns alone.
pub uninterp spec fn normalized_of(x: u32, y: u32, z: u32) -> (u32, u32, u32);

/// Relies on `str::parse` into a single precision component: the parsed
/// value is a function of the text alone; text that is not UTF-8 or not a
/// number parses to nothing. An `ultraviolet` vector serves as the holder
/// that fixes the parse target type.
#[verifier::external_body]
pub fn parse_scalar(s: &[u8]) -> (r: Option<u32>)
    ensures
        r == parsed_scalar(s@),
{
    let mut holder = ultraviolet::Vec3::zero();
    holder.x = core::str::from_utf8(s).ok()?.parse().ok()?;
    Some(holder.x.to_bits())
}

/// Relies on `str::parse` for the three components and on
/// `ultraviolet::Vec3::normalized` over them: the result is a function of
/// the parsed component bit patterns alone, and it exists exactly when all
/// three texts read as numbers.
#[verifier::external_body]
pub fn parse_normalized(sx: &[u8], sy: &[u8], sz: &[u8]) -> (r: Option<Vec3>)
    ensures
        r == match (parsed_scalar(sx@), parsed_scalar(sy@), parsed_scalar(sz@)) {
            (Some(x), Some(y), Some(z)) => Some(
                Vec3 {
                    x: normalized_of(x, y, z).0,
                    y: normalized_of(x, y, z).1,
                    z: normalized_of(x, y, z).2,
                },
            ),
            _ => None::<Vec3>,
        },
{
    let mut v = ultraviolet::Vec3::zero();
    v.x = core::str::from_utf8(sx).ok()?.parse().ok()?;
    v.y = core::str::from_utf8(sy).ok()?.parse().ok()?;
    v.z = core::str::from_utf8(sz).ok()?.parse().ok()?;
    let n = v.normalized();
    Some(Vec3 { x: n.x.to_bits(), y: n.y.to_bits(), z: n.z.to_bits() })
}

} // verus!
