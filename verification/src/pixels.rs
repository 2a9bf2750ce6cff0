//! Pixel formats, the size of a buffer, and how a captured frame becomes RGBA.

use vstd::prelude::*;

verus! {

/// The pixel formats that a compositor may offer for shared memory. The names
/// give the channels from the most to the least significant byte of a
/// little-endian word.
#[derive(Debug, Clone, Copy, PartialEq, Eq, Structural)]
pub enum ShmFormat {
    Abgr8888,
    Xbgr8888,
    Argb8888,
    Xrgb8888,
    /// Any other format, by its code.
    Other(u32),
}

/// How early a format comes among those that can be used. The first two are
/// RGBA in memory, the other two BGRA.
pub open spec fn format_rank(format: ShmFormat) -> int {
    match format {
        ShmFormat::Abgr8888 => 0,
        ShmFormat::Xbgr8888 => 1,
        ShmFormat::Argb8888 => 2,
        ShmFormat::Xrgb8888 => 3,
        ShmFormat::Other(_) => 4,
    }
}

/// The format can be used.
pub open spec fn usable(format: ShmFormat) -> bool {
    !(format is Other)
}

/// The format is the one to pick among those offered: it can be used, and no
/// format that comes earlier is offered.
pub open spec fn best_format(offered: Seq<ShmFormat>, format: ShmFormat) -> bool {
    &&& usable(format)
    &&& offered.contains(format)
    &&& forall|other: ShmFormat|
        #[trigger] offered.contains(other) ==> format_rank(format) <= format_rank(other)
}

/// The bytes of a pixel are BGRA in memory, so that two of them have to be
/// swapped.
pub open spec fn is_bgra(format: ShmFormat) -> bool {
    format == ShmFormat::Argb8888 || format == ShmFormat::Xrgb8888
}

/// The fourth byte of a pixel says how opaque it is. Otherwise it is padding,
/// which may hold anything.
pub open spec fn carries_alpha(format: ShmFormat) -> bool {
    format != ShmFormat::Xbgr8888 && format != ShmFormat::Xrgb8888
}

fn offers(offered: &Vec<ShmFormat>, format: ShmFormat) -> (found: bool)
    ensures
        found == offered@.contains(format),
{
    let mut i: usize = 0;
    while i < offered.len()
        invariant
            i <= offered.len(),
            forall|j: int| 0 <= j < i ==> offered@[j] != format,
        decreases offered.len() - i,
    {
        if offered[i] == format {
            return true;
        }
        i += 1;
    }
    false
}

/// Picks a pixel format among those offered.
pub fn pick_format(offered: &Vec<ShmFormat>) -> (format: Option<ShmFormat>)
    ensures
        match format {
            Some(picked) => best_format(offered@, picked),
            None => forall|other: ShmFormat|
                #[trigger] offered@.contains(other) ==> !usable(other),
        },
{
    if offers(offered, ShmFormat::Abgr8888) {
        Some(ShmFormat::Abgr8888)
    } else if offers(offered, ShmFormat::Xbgr8888) {
        Some(ShmFormat::Xbgr8888)
    } else if offers(offered, ShmFormat::Argb8888) {
        Some(ShmFormat::Argb8888)
    } else if offers(offered, ShmFormat::Xrgb8888) {
        Some(ShmFormat::Xrgb8888)
    } else {
        None
    }
}

/// Whether the pixels of a format have two bytes to swap.
pub fn needs_byte_swap(format: ShmFormat) -> (swap: bool)
    ensures
        swap == is_bgra(format),
{
    matches!(format, ShmFormat::Argb8888 | ShmFormat::Xrgb8888)
}

/// Whether the pixels of a format say how opaque they are.
pub fn has_alpha(format: ShmFormat) -> (alpha: bool)
    ensures
        alpha == carries_alpha(format),
{
    !matches!(format, ShmFormat::Xbgr8888 | ShmFormat::Xrgb8888)
}

/// The bytes that a size of frame takes in a pool with room for two frames, as a
/// product of 32-bit integers.
pub open spec fn pool_bytes(width: u32, height: u32) -> int {
    (width as i32) * 4 * (height as i32) * 2
}

/// The sizes of a frame's row, of the frame, and of the pool for it are 32-bit
/// integers.
pub open spec fn fits_pool(width: u32, height: u32) -> bool {
    &&& i32::MIN <= (width as i32) * 4 <= i32::MAX
    &&& i32::MIN <= (width as i32) * 4 * (height as i32) <= i32::MAX
    &&& i32::MIN <= pool_bytes(width, height) <= i32::MAX
}

/// Where a buffer for a frame goes: the size of the pool, and the size of the
/// frame and of its rows.
#[derive(Debug, Clone, Copy, PartialEq, Eq, Structural)]
pub struct BufferLayout {
    pub pool_size: usize,
    pub width: i32,
    pub height: i32,
    pub stride: i32,
}

/// The layout of a buffer for a frame of four bytes per pixel.
pub open spec fn buffer_layout(width: u32, height: u32) -> BufferLayout {
    BufferLayout {
        pool_size: (pool_bytes(width, height) as i32) as usize,
        width: width as i32,
        height: height as i32,
        stride: ((width as i32) * 4) as i32,
    }
}

/// Whether the sizes of the buffer for a frame are 32-bit integers.
pub fn layout_fits(width: u32, height: u32) -> (fits: bool)
    ensures
        fits == fits_pool(width, height),
{
    let w: i128 = width as i32 as i128;
    let h: i128 = height as i32 as i128;
    let low: i128 = i32::MIN as i128;
    let high: i128 = i32::MAX as i128;
    assert(-0x4_0000_0000_0000_0000 <= w * 4 * h <= 0x4_0000_0000_0000_0000) by (nonlinear_arith)
        requires
            -0x8000_0000 <= w <= 0x7fff_ffff,
            -0x8000_0000 <= h <= 0x7fff_ffff,
    ;
    let stride: i128 = w * 4;
    let frame: i128 = stride * h;
    let pool: i128 = frame * 2;
    low <= stride && stride <= high && low <= frame && frame <= high && low <= pool && pool <= high
}

/// Computes the layout of a buffer for a frame.
pub fn layout_buffer(width: u32, height: u32) -> (layout: BufferLayout)
    requires
        fits_pool(width, height),
    ensures
        layout == buffer_layout(width, height),
{
    let stride: i32 = (width as i32) * 4;
    let pool_size: i32 = stride * (height as i32) * 2;
    BufferLayout { pool_size: pool_size as usize, width: width as i32, height: height as i32, stride }
}

/// The length of the whole pixels in a frame.
pub open spec fn whole_pixels(frame: Seq<u8>) -> int {
    frame.len() - frame.len() % 4
}

/// A byte of a frame as RGBA. Red and blue change places if asked. A pixel that
/// does not say how opaque it is becomes opaque, and so does one with an alpha of
/// zero. What is left over behind the last whole pixel stays.
pub open spec fn rgba_byte(frame: Seq<u8>, swap: bool, has_alpha: bool, i: int) -> u8 {
    if i >= whole_pixels(frame) {
        frame[i]
    } else if i % 4 == 3 {
        if !has_alpha || frame[i] == 0 {
            0xFF
        } else {
            frame[i]
        }
    } else if swap && i % 4 == 0 {
        frame[i + 2]
    } else if swap && i % 4 == 2 {
        frame[i - 2]
    } else {
        frame[i]
    }
}

/// A frame as RGBA.
pub open spec fn rgba(frame: Seq<u8>, swap: bool, has_alpha: bool) -> Seq<u8> {
    Seq::new(frame.len(), |i: int| rgba_byte(frame, swap, has_alpha, i))
}

/// Turns a captured frame into RGBA.
pub fn to_rgba(frame: Vec<u8>, swap: bool, has_alpha: bool) -> (pixels: Vec<u8>)
    ensures
        pixels@ == rgba(frame@, swap, has_alpha),
{
    let mut pixels: Vec<u8> = frame;
    let ghost before = pixels@;
    let len: usize = pixels.len();
    let mut i: usize = 0;
    while len - i >= 4
        invariant
            i <= len,
            i % 4 == 0,
            len == before.len(),
            pixels@.len() == len,
            forall|j: int| 0 <= j < i ==> pixels@[j] == rgba_byte(before, swap, has_alpha, j),
            forall|j: int| i <= j < len ==> pixels@[j] == before[j],
        decreases len - i,
    {
        if swap {
            let blue: u8 = pixels[i];
            let red: u8 = pixels[i + 2];
            pixels.set(i, red);
            pixels.set(i + 2, blue);
        }
        if !has_alpha || pixels[i + 3] == 0 {
            pixels.set(i + 3, 0xFF);
        }
        i += 4;
    }
    assert(pixels@ =~= rgba(before, swap, has_alpha));
    pixels
}

/// There is at most one best format among those offered.
pub proof fn law_best_format_is_unique(offered: Seq<ShmFormat>, one: ShmFormat, other: ShmFormat)
    requires
        best_format(offered, one),
        best_format(offered, other),
    ensures
        one == other,
{
    assert(format_rank(one) == format_rank(other));
}

/// A frame keeps its length, and none of its whole pixels is transparent. Where
/// the pixels do not say how opaque they are, all are opaque, whatever their
/// padding holds.
pub proof fn law_rgba_is_visible(frame: Seq<u8>, swap: bool, has_alpha: bool)
    ensures
        rgba(frame, swap, has_alpha).len() == frame.len(),
        forall|i: int|
            0 <= i < whole_pixels(frame) && i % 4 == 3 ==> {
                &&& #[trigger] rgba(frame, swap, has_alpha)[i] != 0
                &&& !has_alpha ==> rgba(frame, swap, has_alpha)[i] == 0xFF
            },
{
}

/// Swapping twice is not swapping, and a frame that is RGBA already stays as it
/// is.
pub proof fn law_swapping_twice_is_not_swapping(frame: Seq<u8>, swap: bool, has_alpha: bool)
    ensures
        rgba(rgba(frame, true, has_alpha), true, has_alpha) == rgba(frame, false, has_alpha),
        rgba(rgba(frame, swap, has_alpha), false, has_alpha) == rgba(frame, swap, has_alpha),
{
    let swapped = rgba(frame, true, has_alpha);
    let again = rgba(swapped, true, has_alpha);
    assert forall|i: int| 0 <= i < frame.len() implies #[trigger] again[i] == rgba(
        frame,
        false,
        has_alpha,
    )[i] by {
        if i < whole_pixels(frame) {
            if i % 4 == 0 {
                assert(swapped[i + 2] == rgba_byte(frame, true, has_alpha, i + 2));
            } else if i % 4 == 2 {
                assert(swapped[i - 2] == rgba_byte(frame, true, has_alpha, i - 2));
            }
        }
    }
    assert(again =~= rgba(frame, false, has_alpha));
    assert(rgba(rgba(frame, swap, has_alpha), false, has_alpha) =~= rgba(frame, swap, has_alpha));
}

/// The four bytes of a pixel stay together: a pixel of a BGRA frame comes out
/// with its first and third byte exchanged.
pub proof fn law_pixels_stay_together(frame: Seq<u8>, has_alpha: bool, pixel: int)
    requires
        0 <= pixel,
        4 * pixel + 4 <= frame.len(),
    ensures
        ({
            let out = rgba(frame, true, has_alpha).subrange(4 * pixel, 4 * pixel + 4);
            let blue = frame[4 * pixel];
            let green = frame[4 * pixel + 1];
            let red = frame[4 * pixel + 2];
            let alpha = frame[4 * pixel + 3];
            out == seq![
                red,
                green,
                blue,
                if !has_alpha || alpha == 0 {
                    0xFF
                } else {
                    alpha
                },
            ]
        }),
{
    let out = rgba(frame, true, has_alpha).subrange(4 * pixel, 4 * pixel + 4);
    assert(4 * pixel + 4 <= whole_pixels(frame));
    assert(out[0] == rgba_byte(frame, true, has_alpha, 4 * pixel));
    assert(out[1] == rgba_byte(frame, true, has_alpha, 4 * pixel + 1));
    assert(out[2] == rgba_byte(frame, true, has_alpha, 4 * pixel + 2));
    assert(out[3] == rgba_byte(frame, true, has_alpha, 4 * pixel + 3));
}

/// For a frame whose pool fits, the pool has room for two frames of four bytes per
/// pixel.
pub proof fn law_pool_holds_two_frames(width: u32, height: u32)
    requires
        width <= i32::MAX,
        height <= i32::MAX,
        fits_pool(width, height),
    ensures
        ({
            let layout = buffer_layout(width, height);
            &&& layout.stride == width * 4
            &&& layout.pool_size == 2 * (layout.stride * layout.height)
            &&& layout.width == width
            &&& layout.height == height
        }),
{
    let bytes = pool_bytes(width, height);
    assert(bytes >= 0) by (nonlinear_arith)
        requires
            bytes == width * 4 * height * 2,
            width >= 0,
            height >= 0,
    ;
    assert(2 * (width * 4 * height) == width * 4 * height * 2) by (nonlinear_arith);
}

/// The format that is picked: the first of ABGR, XBGR, ARGB and XRGB that is offered,
/// wherever in the list it stands.
pub proof fn law_formats_are_preferred_in_order(offered: Seq<ShmFormat>)
    ensures
        offered.contains(ShmFormat::Abgr8888) ==> best_format(offered, ShmFormat::Abgr8888),
        offered.contains(ShmFormat::Xbgr8888) && !offered.contains(ShmFormat::Abgr8888)
            ==> best_format(offered, ShmFormat::Xbgr8888),
        offered.contains(ShmFormat::Argb8888) && !offered.contains(ShmFormat::Abgr8888)
            && !offered.contains(ShmFormat::Xbgr8888) ==> best_format(
            offered,
            ShmFormat::Argb8888,
        ),
        offered.contains(ShmFormat::Xrgb8888) && !offered.contains(ShmFormat::Abgr8888)
            && !offered.contains(ShmFormat::Xbgr8888) && !offered.contains(ShmFormat::Argb8888)
            ==> best_format(offered, ShmFormat::Xrgb8888),
        forall|format: ShmFormat| #[trigger]
            best_format(offered, format) ==> offered.contains(format),
        forall|code: u32| !#[trigger] best_format(offered, ShmFormat::Other(code)),
        forall|code: u32| !#[trigger] usable(ShmFormat::Other(code)),
        usable(ShmFormat::Abgr8888),
        usable(ShmFormat::Xbgr8888),
        usable(ShmFormat::Argb8888),
        usable(ShmFormat::Xrgb8888),
{
}

/// The first two formats are RGBA in memory and the next two BGRA. The formats with
/// an X have padding in place of alpha. Of any other format neither is said.
pub proof fn law_formats_are_what_they_are_called(code: u32)
    ensures
        !is_bgra(ShmFormat::Abgr8888) && carries_alpha(ShmFormat::Abgr8888),
        !is_bgra(ShmFormat::Xbgr8888) && !carries_alpha(ShmFormat::Xbgr8888),
        is_bgra(ShmFormat::Argb8888) && carries_alpha(ShmFormat::Argb8888),
        is_bgra(ShmFormat::Xrgb8888) && !carries_alpha(ShmFormat::Xrgb8888),
        !is_bgra(ShmFormat::Other(code)) && carries_alpha(ShmFormat::Other(code)),
{
}

/// What a pixel of each format becomes. In memory ABGR and XBGR are red, green,
/// blue, and ARGB and XRGB are blue, green, red. The fourth byte of ABGR and ARGB is
/// kept unless it is zero, that of XBGR and XRGB is not looked at.
pub proof fn law_formats_become_rgba(frame: Seq<u8>, pixel: int)
    requires
        0 <= pixel,
        4 * pixel + 4 <= frame.len(),
    ensures
        ({
            let first = frame[4 * pixel];
            let second = frame[4 * pixel + 1];
            let third = frame[4 * pixel + 2];
            let fourth: u8 = if frame[4 * pixel + 3] == 0 {
                0xFF
            } else {
                frame[4 * pixel + 3]
            };
            let shown = |format: ShmFormat|
                rgba(frame, is_bgra(format), carries_alpha(format)).subrange(
                    4 * pixel,
                    4 * pixel + 4,
                );
            &&& shown(ShmFormat::Abgr8888) == seq![first, second, third, fourth]
            &&& shown(ShmFormat::Xbgr8888) == seq![first, second, third, 0xFFu8]
            &&& shown(ShmFormat::Argb8888) == seq![third, second, first, fourth]
            &&& shown(ShmFormat::Xrgb8888) == seq![third, second, first, 0xFFu8]
        }),
{
    lemma_pixel(frame, false, true, pixel);
    lemma_pixel(frame, false, false, pixel);
    lemma_pixel(frame, true, true, pixel);
    lemma_pixel(frame, true, false, pixel);
}

proof fn lemma_pixel(frame: Seq<u8>, swap: bool, has_alpha: bool, pixel: int)
    requires
        0 <= pixel,
        4 * pixel + 4 <= frame.len(),
    ensures
        rgba(frame, swap, has_alpha).subrange(4 * pixel, 4 * pixel + 4) == seq![
            frame[if swap {
                4 * pixel + 2
            } else {
                4 * pixel
            }],
            frame[4 * pixel + 1],
            frame[if swap {
                4 * pixel
            } else {
                4 * pixel + 2
            }],
            if !has_alpha || frame[4 * pixel + 3] == 0 {
                0xFF
            } else {
                frame[4 * pixel + 3]
            },
        ],
{
    let out = rgba(frame, swap, has_alpha).subrange(4 * pixel, 4 * pixel + 4);
    assert(4 * pixel + 4 <= whole_pixels(frame));
    assert(out[0] == rgba_byte(frame, swap, has_alpha, 4 * pixel));
    assert(out[1] == rgba_byte(frame, swap, has_alpha, 4 * pixel + 1));
    assert(out[2] == rgba_byte(frame, swap, has_alpha, 4 * pixel + 2));
    assert(out[3] == rgba_byte(frame, swap, has_alpha, 4 * pixel + 3));
}

/// A frame keeps its length, a pixel depends on its own four bytes only, and the
/// bytes behind the last whole pixel stay as they are.
pub proof fn law_pixels_depend_on_themselves_only(
    frame: Seq<u8>,
    other: Seq<u8>,
    swap: bool,
    has_alpha: bool,
    i: int,
)
    requires
        0 <= i < frame.len(),
    ensures
        rgba(frame, swap, has_alpha).len() == frame.len(),
        i >= 4 * (frame.len() as int / 4) ==> rgba(frame, swap, has_alpha)[i] == frame[i],
        i < 4 * (frame.len() as int / 4) && i < 4 * (other.len() as int / 4) && (forall|k: int|
            4 * (i / 4) <= k < 4 * (i / 4) + 4 ==> #[trigger] frame[k] == other[k]) ==> rgba(
            frame,
            swap,
            has_alpha,
        )[i] == rgba(other, swap, has_alpha)[i],
{
    assert(whole_pixels(frame) == 4 * (frame.len() as int / 4));
    assert(whole_pixels(other) == 4 * (other.len() as int / 4));
    assert(rgba(frame, swap, has_alpha)[i] == rgba_byte(frame, swap, has_alpha, i));
    if i < 4 * (frame.len() as int / 4) && i < 4 * (other.len() as int / 4) && (forall|k: int|
        4 * (i / 4) <= k < 4 * (i / 4) + 4 ==> #[trigger] frame[k] == other[k]) {
        assert(rgba(other, swap, has_alpha)[i] == rgba_byte(other, swap, has_alpha, i));
        assert(frame[i] == other[i]);
        if i % 4 == 0 {
            assert(frame[i + 2] == other[i + 2]);
        } else if i % 4 == 2 {
            assert(frame[i - 2] == other[i - 2]);
        }
    }
}

/// The number that a 32-bit pattern stands for when its highest bit is a sign.
proof fn lemma_signed(value: u32)
    ensures
        value <= 0x7fff_ffff ==> (value as i32) == value,
        value > 0x7fff_ffff ==> (value as i32) == value - 0x1_0000_0000,
{
    if value > 0x7fff_ffff {
        assert((value as i32) == value - 0x1_0000_0000) by (bit_vector)
            requires
                value > 0x7fff_ffff,
        ;
    }
}

/// A frame with pixels has a buffer exactly if two frames of four bytes per pixel
/// take at most 2147483647 bytes. Width and height count alike.
pub proof fn law_sizes_that_fit(width: u32, height: u32)
    requires
        0 < width <= 0x7fff_ffff,
        0 < height <= 0x7fff_ffff,
    ensures
        fits_pool(width, height) <==> 8 * (width * height) <= 0x7fff_ffff,
        fits_pool(width, height) <==> fits_pool(height, width),
{
    let area = width * height;
    assert(area == height * width) by (nonlinear_arith)
        requires
            area == width * height,
    ;
    assert(width * 4 * height == 4 * area && height * 4 * width == 4 * area && area >= width
        && area >= height) by (nonlinear_arith)
        requires
            area == width * height,
            0 < width,
            0 < height,
    ;
}

/// Whatever a width and a height stand for as signed integers, a frame has a buffer
/// exactly if the size of its pool is a 32-bit integer.
pub proof fn law_signed_sizes_that_fit(width: u32, height: u32, w: int, h: int)
    requires
        0 < width,
        0 < height,
        w == (if width <= 0x7fff_ffff {
            width as int
        } else {
            width - 0x1_0000_0000
        }),
        h == (if height <= 0x7fff_ffff {
            height as int
        } else {
            height - 0x1_0000_0000
        }),
    ensures
        fits_pool(width, height) <==> -0x8000_0000 <= 8 * (w * h) <= 0x7fff_ffff,
{
    lemma_signed(width);
    lemma_signed(height);
    let area = w * h;
    assert(w * 4 * h == 4 * area) by (nonlinear_arith)
        requires
            area == w * h,
    ;
    assert((area >= w || area <= -w) && (area >= -w || area <= w)) by (nonlinear_arith)
        requires
            area == w * h,
            h != 0,
    ;
}

/// Widths and heights from 2147483648 on count as negative, as the compositor's
/// requests take them.
pub proof fn law_huge_sizes_are_negative(width: u32, height: u32)
    requires
        fits_pool(width, height),
    ensures
        ({
            let layout = buffer_layout(width, height);
            &&& width > 0x7fff_ffff ==> layout.width == width - 0x1_0000_0000
            &&& height > 0x7fff_ffff ==> layout.height == height - 0x1_0000_0000
            &&& layout.stride == 4 * layout.width
            &&& layout.width * layout.height >= 0 ==> layout.pool_size == 8 * (layout.width
                * layout.height)
        }),
{
    lemma_signed(width);
    lemma_signed(height);
    let w = (width as i32) as int;
    let h = (height as i32) as int;
    assert(w * 4 * h * 2 == 8 * (w * h)) by (nonlinear_arith);
}

} // verus!
