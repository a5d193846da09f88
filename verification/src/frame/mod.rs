//! Captured frames: their accumulation, their reduction to a lightness
//! percentage, and the sessions that capture them.

use crate::frame::lightness::{
    is_lightness_percent, lemma_lightness_percent_is_unique, lightness_percent, percent_of_sums,
    weighted_squares, half_step_bound,
};
use itertools::Itertools;
use vstd::prelude::*;
use vstd::slice::slice_subrange;

pub mod capturer;
pub mod lightness;
pub mod object;
pub mod processor;

verus! {

/// The number of bytes a pixel takes.
pub open spec fn channels(has_alpha: bool) -> int {
    if has_alpha {
        4
    } else {
        3
    }
}

/// The sum of one channel over the first `pixels` pixels of a buffer whose
/// pixels take `stride` bytes each.
pub open spec fn channel_sum(bytes: Seq<u8>, stride: int, channel: int, pixels: int) -> int
    decreases pixels,
{
    if pixels <= 0 {
        0
    } else {
        channel_sum(bytes, stride, channel, pixels - 1) + bytes[(pixels - 1) * stride + channel]
    }
}

/// The perceived lightness, in percent, of the first `pixels` pixels of a
/// buffer of interleaved red, green and blue bytes, with an alpha byte
/// after them where `has_alpha` holds.
pub open spec fn perceived_lightness(bytes: Seq<u8>, has_alpha: bool, pixels: int) -> int {
    lightness_percent(
        channel_sum(bytes, channels(has_alpha), 0, pixels),
        channel_sum(bytes, channels(has_alpha), 1, pixels),
        channel_sum(bytes, channels(has_alpha), 2, pixels),
        pixels,
    )
}

/// The number of chunks of `size` items that `len` items fall into, the
/// last of which may be shorter.
pub open spec fn chunk_count(len: int, size: int) -> int {
    (len + size - 1) / size
}

/// The chunk at position `position` when `items` are cut into chunks of
/// `size` items.
pub open spec fn chunk_at(items: Seq<u8>, size: int, position: int) -> Seq<u8> {
    items.subrange(
        position * size,
        if (position + 1) * size <= items.len() {
            (position + 1) * size
        } else {
            items.len() as int
        },
    )
}

/// Calls `Itertools::chunks` on the bytes, which is trusted to yield them in
/// order in chunks of `size` bytes, the last chunk shorter where the bytes
/// run out. The call panics for a size of 0, which `requires` leaves out.
#[verifier::external_body]
fn chunks(bytes: &[u8], size: usize) -> (chunks: Vec<Vec<u8>>)
    requires
        size > 0,
    ensures
        chunks@.len() == chunk_count(bytes@.len() as int, size as int),
        forall|position: int|
            0 <= position < chunks@.len() ==> (#[trigger] chunks@[position])@ == chunk_at(
                bytes@,
                size as int,
                position,
            ),
{
    bytes.iter().chunks(size).into_iter().map(|chunk| chunk.copied().collect()).collect()
}

/// Computes the perceived lightness of a picture in percent, 0 to 100.
///
/// `rgbas` holds the pixels as interleaved red, green and blue bytes, each
/// pixel followed by an alpha byte where `has_alpha` holds. Only the first
/// `pixels` pixels count; the buffer may hold more.
pub fn compute_perceived_lightness_percent(rgbas: &[u8], has_alpha: bool, pixels: usize) -> (percent:
    u8)
    requires
        pixels >= 1,
        rgbas@.len() >= channels(has_alpha) * pixels,
    ensures
        percent == perceived_lightness(rgbas@, has_alpha, pixels as int),
        is_lightness_percent(
            percent as int,
            channel_sum(rgbas@, channels(has_alpha), 0, pixels as int),
            channel_sum(rgbas@, channels(has_alpha), 1, pixels as int),
            channel_sum(rgbas@, channels(has_alpha), 2, pixels as int),
            pixels as int,
        ),
{
    let stride: usize = if has_alpha {
        4
    } else {
        3
    };
    let available: usize = rgbas.len();
    assert(channels(has_alpha) * pixels <= available);
    let used: usize = if has_alpha {
        4 * pixels
    } else {
        3 * pixels
    };
    let counted = slice_subrange(rgbas, 0, used);
    let pixel_chunks = chunks(counted, stride);
    assert(pixel_chunks@.len() == pixels);
    let mut r: u128 = 0;
    let mut g: u128 = 0;
    let mut b: u128 = 0;
    let mut pixel: usize = 0;
    while pixel < pixels
        invariant
            pixel <= pixels,
            pixel_chunks@.len() == pixels,
            stride == channels(has_alpha),
            counted@ == rgbas@.subrange(0, stride * pixels),
            rgbas@.len() >= stride * pixels,
            forall|position: int|
                0 <= position < pixel_chunks@.len() ==> (#[trigger] pixel_chunks@[position])@
                    == chunk_at(counted@, stride as int, position),
            r == channel_sum(rgbas@, stride as int, 0, pixel as int),
            g == channel_sum(rgbas@, stride as int, 1, pixel as int),
            b == channel_sum(rgbas@, stride as int, 2, pixel as int),
            r <= 255 * pixel,
            g <= 255 * pixel,
            b <= 255 * pixel,
        decreases pixels - pixel,
    {
        let chunk = &pixel_chunks[pixel];
        proof {
            let whole = chunk_at(counted@, stride as int, pixel as int);
            assert(chunk@ == whole);
            if has_alpha {
                assert(whole.len() == 4);
                assert(forall|channel: int|
                    0 <= channel < 4 ==> whole[channel] == rgbas@[pixel * 4 + channel]);
            } else {
                assert(whole.len() == 3);
                assert(forall|channel: int|
                    0 <= channel < 3 ==> whole[channel] == rgbas@[pixel * 3 + channel]);
            }
        }
        r = r + chunk[0] as u128;
        g = g + chunk[1] as u128;
        b = b + chunk[2] as u128;
        pixel += 1;
    }
    percent_of_sums(r, g, b, pixels)
}

/// The first `pixels` pixels of the buffer all have red, green and blue `value`.
pub open spec fn is_uniform_gray(bytes: Seq<u8>, has_alpha: bool, pixels: int, value: u8) -> bool {
    forall|pixel: int, channel: int|
        0 <= pixel < pixels && 0 <= channel < 3 ==> #[trigger] bytes[pixel * channels(has_alpha)
            + channel] == value
}

/// The first `pixels` pixels of the two buffers, one with and one without
/// alpha bytes, have the same red, green and blue.
pub open spec fn same_colors(with_alpha: Seq<u8>, without_alpha: Seq<u8>, pixels: int) -> bool {
    forall|pixel: int, channel: int|
        0 <= pixel < pixels && 0 <= channel < 3 ==> #[trigger] with_alpha[pixel * 4 + channel]
            == without_alpha[pixel * 3 + channel]
}

proof fn lemma_uniform_channel_sum(
    bytes: Seq<u8>,
    has_alpha: bool,
    channel: int,
    pixels: int,
    value: u8,
)
    requires
        0 <= pixels,
        0 <= channel < 3,
        is_uniform_gray(bytes, has_alpha, pixels, value),
    ensures
        channel_sum(bytes, channels(has_alpha), channel, pixels) == value * pixels,
    decreases pixels,
{
    if pixels > 0 {
        lemma_uniform_channel_sum(bytes, has_alpha, channel, pixels - 1, value);
        assert(bytes[(pixels - 1) * channels(has_alpha) + channel] == value);
        assert(value * pixels == value * (pixels - 1) + value) by (nonlinear_arith);
    } else {
        assert(value * pixels == 0) by (nonlinear_arith)
            requires
                pixels == 0,
        ;
    }
}

proof fn lemma_same_channel_sum(
    with_alpha: Seq<u8>,
    without_alpha: Seq<u8>,
    channel: int,
    pixels: int,
)
    requires
        0 <= pixels,
        0 <= channel < 3,
        same_colors(with_alpha, without_alpha, pixels),
    ensures
        channel_sum(with_alpha, 4, channel, pixels) == channel_sum(
            without_alpha,
            3,
            channel,
            pixels,
        ),
    decreases pixels,
{
    if pixels > 0 {
        lemma_same_channel_sum(with_alpha, without_alpha, channel, pixels - 1);
        assert(with_alpha[(pixels - 1) * 4 + channel] == without_alpha[(pixels - 1) * 3 + channel]);
    }
}

proof fn lemma_gray_is_linear(value: int, pixels: int, percent: int)
    by (nonlinear_arith)
    requires
        0 <= value <= 255,
        1 <= pixels,
        0 <= percent,
        (2 * percent - 1) * 255 <= 200 * value < (2 * percent + 1) * 255,
    ensures
        percent <= 100,
        percent > 0 ==> half_step_bound(percent - 1) * (pixels * pixels) <= 8 * weighted_squares(
            value * pixels,
            value * pixels,
            value * pixels,
        ),
        8 * weighted_squares(value * pixels, value * pixels, value * pixels) < half_step_bound(
            percent,
        ) * (pixels * pixels),
{
    let unit = pixels * pixels;
    let gray = value * value;
    assert(8 * weighted_squares(value * pixels, value * pixels, value * pixels) == 8000 * gray
        * unit);
    assert(percent > 0 ==> (2 * percent - 1) * (2 * percent - 1) * 65025 <= 40000 * gray);
    assert(40000 * gray < (2 * percent + 1) * (2 * percent + 1) * 65025);
    assert(percent > 0 ==> half_step_bound(percent - 1) <= 8000 * gray);
    assert(8000 * gray < half_step_bound(percent));
}

/// Where every pixel is the same gray, lightness is linear in that gray:
/// the percentage is `100 * value / 255`, rounded to the nearest integer.
pub proof fn lemma_uniform_gray_is_linear(bytes: Seq<u8>, has_alpha: bool, pixels: int, value: u8)
    requires
        pixels >= 1,
        is_uniform_gray(bytes, has_alpha, pixels, value),
    ensures
        perceived_lightness(bytes, has_alpha, pixels) == (200 * value + 255) / 510,
{
    let percent = (200 * value + 255) / 510;
    let sum = value * pixels;
    lemma_uniform_channel_sum(bytes, has_alpha, 0, pixels, value);
    lemma_uniform_channel_sum(bytes, has_alpha, 1, pixels, value);
    lemma_uniform_channel_sum(bytes, has_alpha, 2, pixels, value);
    lemma_gray_is_linear(value as int, pixels, percent);
    assert(is_lightness_percent(percent, sum, sum, sum, pixels));
    lemma_lightness_percent_is_unique(
        percent,
        lightness_percent(sum, sum, sum, pixels),
        sum,
        sum,
        sum,
        pixels,
    );
}

/// A picture whose red, green and blue are all 0 has lightness 0.
pub proof fn lemma_black_is_zero(bytes: Seq<u8>, has_alpha: bool, pixels: int)
    requires
        pixels >= 1,
        is_uniform_gray(bytes, has_alpha, pixels, 0),
    ensures
        perceived_lightness(bytes, has_alpha, pixels) == 0,
{
    lemma_uniform_gray_is_linear(bytes, has_alpha, pixels, 0);
}

/// A picture whose red, green and blue are all 255 has lightness 100.
pub proof fn lemma_white_is_hundred(bytes: Seq<u8>, has_alpha: bool, pixels: int)
    requires
        pixels >= 1,
        is_uniform_gray(bytes, has_alpha, pixels, 255),
    ensures
        perceived_lightness(bytes, has_alpha, pixels) == 100,
{
    lemma_uniform_gray_is_linear(bytes, has_alpha, pixels, 255);
}

/// A picture whose red, green and blue are all 128 has lightness 50.
pub proof fn lemma_middle_gray_is_fifty(bytes: Seq<u8>, has_alpha: bool, pixels: int)
    requires
        pixels >= 1,
        is_uniform_gray(bytes, has_alpha, pixels, 128),
    ensures
        perceived_lightness(bytes, has_alpha, pixels) == 50,
{
    lemma_uniform_gray_is_linear(bytes, has_alpha, pixels, 128);
}

/// Alpha bytes do not count: two buffers, one with and one without them,
/// that hold the same red, green and blue have the same lightness.
pub proof fn lemma_alpha_is_ignored(with_alpha: Seq<u8>, without_alpha: Seq<u8>, pixels: int)
    requires
        pixels >= 1,
        same_colors(with_alpha, without_alpha, pixels),
    ensures
        perceived_lightness(with_alpha, true, pixels) == perceived_lightness(
            without_alpha,
            false,
            pixels,
        ),
{
    lemma_same_channel_sum(with_alpha, without_alpha, 0, pixels);
    lemma_same_channel_sum(with_alpha, without_alpha, 1, pixels);
    lemma_same_channel_sum(with_alpha, without_alpha, 2, pixels);
}

} // verus!
