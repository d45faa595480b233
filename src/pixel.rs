//! Pixel values and their contribution to the two bit-planes.
use vstd::prelude::*;

verus! {

/// Why a tile could not be encoded.
#[derive(Clone, Copy, Debug, PartialEq, Eq, Structural)]
pub enum EncodeError {
    /// The grid does not hold exactly 64 pixels.
    LengthError,
    /// A pixel value does not fit in a byte.
    CastError,
    /// A pixel value fits in a byte but is not a colour index in 0..=3.
    RangeError,
}

/// An unsigned integer type that can carry a pixel value.
pub trait Pixel: Copy {
    /// The numeric value carried.
    spec fn value(&self) -> nat;

    /// The same value in a `u64`.
    fn widen(&self) -> (r: u64)
        ensures
            r as nat == self.value(),
    ;
}

impl Pixel for u8 {
    open spec fn value(&self) -> nat {
        *self as nat
    }

    fn widen(&self) -> (r: u64) {
        *self as u64
    }
}

impl Pixel for u16 {
    open spec fn value(&self) -> nat {
        *self as nat
    }

    fn widen(&self) -> (r: u64) {
        *self as u64
    }
}

impl Pixel for u32 {
    open spec fn value(&self) -> nat {
        *self as nat
    }

    fn widen(&self) -> (r: u64) {
        *self as u64
    }
}

impl Pixel for u64 {
    open spec fn value(&self) -> nat {
        *self as nat
    }

    fn widen(&self) -> (r: u64) {
        *self
    }
}

impl Pixel for usize {
    open spec fn value(&self) -> nat {
        *self as nat
    }

    fn widen(&self) -> (r: u64) {
        *self as u64
    }
}

/// What a pixel of value `v` contributes to the low and the high bit-plane,
/// each bit already at the most significant position (128) when set.
pub open spec fn pixel_bits(v: nat) -> Result<(u8, u8), EncodeError> {
    if v > 255 {
        Err(EncodeError::CastError)
    } else if v == 0 {
        Ok((0u8, 0u8))
    } else if v == 1 {
        Ok((128u8, 0u8))
    } else if v == 2 {
        Ok((0u8, 128u8))
    } else if v == 3 {
        Ok((128u8, 128u8))
    } else {
        Err(EncodeError::RangeError)
    }
}

/// Relies on num's `ToPrimitive::to_u8` for `u64`: `Some` of the same value
/// when it fits in a byte, `None` otherwise.
#[verifier::external_body]
fn narrow(v: u64) -> (r: Option<u8>)
    ensures
        v <= 255 ==> r == Some(v as u8),
        v > 255 ==> r is None,
{
    num::ToPrimitive::to_u8(&v)
}

/// Maps one pixel to its (low-plane, high-plane) bits: 0 to (0, 0), 1 to
/// (128, 0), 2 to (0, 128), 3 to (128, 128). A value that does not fit in a
/// byte is a `CastError`; any other value outside 0..=3 is a `RangeError`.
pub fn int_to_2bpp<T: Pixel>(num: T) -> (r: Result<(u8, u8), EncodeError>)
    ensures
        r == pixel_bits(num.value()),
{
    let byte = match narrow(num.widen()) {
        Some(n) => n,
        None => return Err(EncodeError::CastError),
    };
    match byte {
        0 => Ok((0, 0)),
        1 => Ok((128, 0)),
        2 => Ok((0, 128)),
        3 => Ok((128, 128)),
        _ => Err(EncodeError::RangeError),
    }
}

} // verus!
