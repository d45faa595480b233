//! General facts about tile encoding, proved over the specification.
use vstd::prelude::*;

use crate::pixel::{pixel_bits, EncodeError, Pixel};
use crate::tile::{encoded, first_error, result_view, scan_index, tile_result, twobpp};

verus! {

/// Grid index `i` is the one visited at scan step `8 * (i / 8) + 7 - i % 8`.
proof fn lemma_scan_visits(i: int)
    requires
        0 <= i < 64,
    ensures
        0 <= 8 * (i / 8) + 7 - i % 8 < 64,
        scan_index(8 * (i / 8) + 7 - i % 8) == i,
{
}

/// With no error from step `s` on, every pixel scanned from there is valid.
proof fn lemma_no_error_after(px: Seq<nat>, s: nat, t: nat)
    requires
        px.len() == 64,
        first_error(px, s) == None::<EncodeError>,
        s <= t < 64,
    ensures
        pixel_bits(px[scan_index(t as int)]) is Ok,
    decreases t - s,
{
    assert(0 <= scan_index(s as int) < 64);
    if s < t {
        lemma_no_error_after(px, s + 1, t);
    }
}

/// Where every pixel from step `s` of the scan on is valid, no error comes.
proof fn lemma_valid_from(px: Seq<nat>, s: nat)
    requires
        px.len() == 64,
        forall|i: int| 0 <= i < 64 ==> px[i] <= 3,
        s <= 64,
    ensures
        first_error(px, s) == None::<EncodeError>,
    decreases 64 - s,
{
    if s < 64 {
        assert(0 <= scan_index(s as int) < 64);
        lemma_valid_from(px, s + 1);
    }
}

/// Where every pixel fits in a byte, the only error the scan can meet from
/// step `s` on is a `RangeError`.
proof fn lemma_bytes_only_range(px: Seq<nat>, s: nat)
    requires
        px.len() == 64,
        forall|i: int| 0 <= i < 64 ==> px[i] <= 255,
        s <= 64,
    ensures
        first_error(px, s) == None::<EncodeError> || first_error(px, s) == Some(
            EncodeError::RangeError,
        ),
    decreases 64 - s,
{
    if s < 64 {
        assert(0 <= scan_index(s as int) < 64);
        lemma_bytes_only_range(px, s + 1);
    }
}

/// A grid of 64 pixels, each a colour index in 0..=3, always encodes, and
/// into exactly 16 bytes.
pub proof fn lemma_valid_grid_encodes(px: Seq<nat>)
    requires
        px.len() == 64,
        forall|i: int| 0 <= i < 64 ==> px[i] <= 3,
    ensures
        tile_result(px) == Ok::<Seq<u8>, EncodeError>(encoded(px)),
        encoded(px).len() == 16,
{
    lemma_valid_from(px, 0);
}

/// A grid of 64 pixels that all fit in a byte, one of which is not a colour
/// index in 0..=3, fails with a `RangeError`.
pub proof fn lemma_out_of_range_fails(px: Seq<nat>)
    requires
        px.len() == 64,
        forall|i: int| 0 <= i < 64 ==> px[i] <= 255,
        exists|i: int| 0 <= i < 64 && px[i] > 3,
    ensures
        tile_result(px) == Err::<Seq<u8>, EncodeError>(EncodeError::RangeError),
{
    let i = choose|i: int| 0 <= i < 64 && px[i] > 3;
    lemma_bytes_only_range(px, 0);
    lemma_scan_visits(i);
    if first_error(px, 0) == None::<EncodeError> {
        lemma_no_error_after(px, 0, (8 * (i / 8) + 7 - i % 8) as nat);
    }
}

/// Encoding the same grid twice gives the same bytes, or the same error.
pub proof fn lemma_deterministic<T: Pixel>(
    pixels: Vec<T>,
    r1: Result<Vec<u8>, EncodeError>,
    r2: Result<Vec<u8>, EncodeError>,
)
    requires
        call_ensures(twobpp::<T>, (pixels,), r1),
        call_ensures(twobpp::<T>, (pixels,), r2),
    ensures
        result_view(r1) == result_view(r2),
{
}

} // verus!
