//! Encoding of a whole 8x8 tile into its two interleaved bit-planes.
use vstd::prelude::*;

use crate::pixel::{int_to_2bpp, pixel_bits, EncodeError, Pixel};

verus! {

/// The numeric values of a grid of pixels.
pub open spec fn values<T: Pixel>(pixels: Seq<T>) -> Seq<nat> {
    pixels.map_values(|p: T| p.value())
}

/// Bit `plane` (0 for the low plane, 1 for the high plane) of a colour index.
pub open spec fn plane_bit(v: nat, plane: nat) -> nat {
    if plane == 0 {
        v % 2
    } else {
        (v / 2) % 2
    }
}

/// The byte of bit-plane `plane` for column `x` of the grid `px` (pixel
/// `(x, y)` at index `x * 8 + y`): the bits of rows 0 to 7 read from the most
/// significant position to the least.
pub open spec fn plane_byte(px: Seq<nat>, x: int, plane: nat) -> nat {
    let b = |y: int| plane_bit(px[x * 8 + y], plane);
    128 * b(0) + 64 * b(1) + 32 * b(2) + 16 * b(3) + 8 * b(4) + 4 * b(5) + 2 * b(6) + b(7)
}

/// The encoded tile: for each column in ascending order, its low-plane byte
/// followed by its high-plane byte.
pub open spec fn encoded(px: Seq<nat>) -> Seq<u8> {
    Seq::new(16, |i: int| plane_byte(px, i / 2, (i % 2) as nat) as u8)
}

/// The grid index visited at step `s` of the encoding: columns ascending, and
/// within a column rows from 7 down to 0.
pub open spec fn scan_index(s: int) -> int {
    8 * (s / 8) + 7 - s % 8
}

/// The error of the first invalid pixel met from step `s` of the scan on,
/// if any.
pub open spec fn first_error(px: Seq<nat>, s: nat) -> Option<EncodeError>
    decreases 64 - s,
{
    if s >= 64 {
        None
    } else {
        match pixel_bits(px[scan_index(s as int)]) {
            Err(e) => Some(e),
            Ok(_) => first_error(px, s + 1),
        }
    }
}

/// What encoding the grid `px` gives: a `LengthError` unless it holds 64
/// pixels, else the error of the first invalid pixel in scan order, else the
/// encoded tile.
pub open spec fn tile_result(px: Seq<nat>) -> Result<Seq<u8>, EncodeError> {
    if px.len() != 64 {
        Err(EncodeError::LengthError)
    } else {
        match first_error(px, 0) {
            Some(e) => Err(e),
            None => Ok(encoded(px)),
        }
    }
}

/// The bytes of an encoding result.
pub open spec fn result_view(r: Result<Vec<u8>, EncodeError>) -> Result<Seq<u8>, EncodeError> {
    match r {
        Ok(bytes) => Ok(bytes@),
        Err(e) => Err(e),
    }
}

/// A plane accumulator after one more row: shifted right by one, with the
/// row's bit entered at the most significant position.
spec fn shift_in(acc: u8, bit: nat) -> u8 {
    (acc >> 1) | if bit == 1 { 128u8 } else { 0u8 }
}

/// A plane accumulator of column `x` once rows 7 down to `y` are shifted in.
spec fn shifted(px: Seq<nat>, x: int, plane: nat, y: int) -> u8
    decreases 8 - y,
{
    if y >= 8 {
        0
    } else {
        shift_in(shifted(px, x, plane, y + 1), plane_bit(px[x * 8 + y], plane))
    }
}

proof fn lemma_shift_eight(b0: u8, b1: u8, b2: u8, b3: u8, b4: u8, b5: u8, b6: u8, b7: u8)
    by (bit_vector)
    requires
        b0 <= 1,
        b1 <= 1,
        b2 <= 1,
        b3 <= 1,
        b4 <= 1,
        b5 <= 1,
        b6 <= 1,
        b7 <= 1,
    ensures
        shift_in(shift_in(shift_in(shift_in(shift_in(shift_in(shift_in(shift_in(
            0u8, b7 as nat), b6 as nat), b5 as nat), b4 as nat), b3 as nat), b2 as nat),
            b1 as nat), b0 as nat) as int
            == 128 * b0 + 64 * b1 + 32 * b2 + 16 * b3 + 8 * b4 + 4 * b5 + 2 * b6 + b7,
{
}

proof fn lemma_column(px: Seq<nat>, x: int, plane: nat)
    requires
        0 <= x < 8,
        px.len() == 64,
    ensures
        shifted(px, x, plane, 0) as nat == plane_byte(px, x, plane),
{
    reveal_with_fuel(shifted, 9);
    let b = |y: int| plane_bit(px[x * 8 + y], plane);
    lemma_shift_eight(
        b(0) as u8, b(1) as u8, b(2) as u8, b(3) as u8, b(4) as u8, b(5) as u8, b(6) as u8,
        b(7) as u8,
    );
}

/// Converts a grid of 64 pixel values, pixel `(x, y)` at index `x * 8 + y`,
/// into the 16 bytes of a 2bpp tile: for each column its low-plane byte, then
/// its high-plane byte, row 0 in the most significant bit. Fails with
/// `LengthError` unless there are exactly 64 pixels, and otherwise with the
/// error of the first invalid pixel met (columns ascending, rows descending).
pub fn twobpp<T: Pixel>(pixels: Vec<T>) -> (r: Result<Vec<u8>, EncodeError>)
    ensures
        pixels@.len() != 64 ==> r == Err::<Vec<u8>, EncodeError>(EncodeError::LengthError),
        result_view(r) == tile_result(values(pixels@)),
{
    if pixels.len() != 64 {
        return Err(EncodeError::LengthError);
    }
    let ghost px = values(pixels@);
    let mut output_bytes: Vec<u8> = Vec::new();
    let mut x: usize = 0;
    while x < 8
        invariant
            x <= 8,
            pixels@.len() == 64,
            px == values(pixels@),
            first_error(px, 0) == first_error(px, (8 * x) as nat),
            output_bytes@.len() == 2 * x,
            forall|i: int| 0 <= i < 2 * x ==> output_bytes@[i] == encoded(px)[i],
        decreases 8 - x,
    {
        let mut small: u8 = 0;
        let mut big: u8 = 0;
        let mut y: usize = 8;
        while y > 0
            invariant
                x < 8,
                y <= 8,
                pixels@.len() == 64,
                px == values(pixels@),
                first_error(px, 0) == first_error(px, (8 * x + 8 - y) as nat),
                small == shifted(px, x as int, 0, y as int),
                big == shifted(px, x as int, 1, y as int),
            decreases y,
        {
            y = y - 1;
            assert(scan_index(8 * x + 7 - y) == x * 8 + y);
            let bits = match int_to_2bpp(pixels[x * 8 + y]) {
                Ok(bits) => bits,
                Err(e) => return Err(e),
            };
            small = (small >> 1) | bits.0;
            big = (big >> 1) | bits.1;
        }
        proof {
            lemma_column(px, x as int, 0);
            lemma_column(px, x as int, 1);
        }
        output_bytes.push(small);
        output_bytes.push(big);
        x = x + 1;
    }
    proof {
        assert(first_error(px, 64) == None::<EncodeError>);
        assert(output_bytes@ =~= encoded(px));
    }
    Ok(output_bytes)
}

} // verus!
