use vstd::prelude::*;
use vstd::arithmetic::div_mod::lemma_fundamental_div_mod_converse;

use crate::update::AppError;

verus! {

/// The four little-endian bytes of the low 32 bits of a number.
pub open spec fn le32(n: nat) -> Seq<u8> {
    seq![
        (n % 0x100) as u8,
        ((n / 0x100) % 0x100) as u8,
        ((n / 0x10000) % 0x100) as u8,
        ((n / 0x1000000) % 0x100) as u8,
    ]
}

/// The two little-endian bytes of the low 16 bits of a number.
pub open spec fn le16(n: nat) -> Seq<u8> {
    seq![(n % 0x100) as u8, ((n / 0x100) % 0x100) as u8]
}

/// Size in bytes of the bitmap header that precedes the pixels of a device-independent bitmap.
pub const DIB_HEADER_SIZE: usize = 40;

/// The bitmap header of an uncompressed 32-bit image, bottom row first: its own size, the
/// width, the height, one plane, 32 bits per pixel, no compression, the size of the pixel
/// area, and zero resolution and palette fields.
pub open spec fn dib_header(width: u32, height: u32, image_size: nat) -> Seq<u8> {
    le32(40) + le32(width as nat) + le32(height as nat) + le16(1) + le16(32) + le32(0) + le32(
        image_size,
    ) + le32(0) + le32(0) + le32(0) + le32(0)
}

/// RGBA and BGRA differ in the order of the first three channels.
pub open spec fn channel_swap(k: int) -> int {
    if k == 0 {
        2
    } else if k == 2 {
        0
    } else {
        k
    }
}

/// Where byte `i` of the bitmap pixels (bottom row first, BGRA) comes from in the RGBA pixels
/// (top row first).
pub open spec fn dib_source_index(width: nat, height: nat, i: int) -> int {
    let stride = (width * 4) as int;
    let within = i % stride;
    (height - 1 - i / stride) * stride + (within - within % 4) + channel_swap(within % 4)
}

/// The pixel area of the bitmap: as long as the RGBA buffer; the image rows in reverse order
/// with red and blue swapped, then zeros for what the buffer holds beyond the image.
pub open spec fn dib_pixels(width: u32, height: u32, pixels: Seq<u8>) -> Seq<u8> {
    Seq::new(
        pixels.len(),
        |i: int|
            if i < width * height * 4 {
                pixels[dib_source_index(width as nat, height as nat, i)]
            } else {
                0u8
            },
    )
}

/// The device-independent bitmap of an RGBA image: header, then pixels.
pub open spec fn spec_dib_bytes(width: u32, height: u32, pixels: Seq<u8>) -> Seq<u8> {
    dib_header(width, height, pixels.len()) + dib_pixels(width, height, pixels)
}

fn push_le32(out: &mut Vec<u8>, n: usize)
    ensures
        final(out)@ == old(out)@ + le32(n as nat),
{
    out.push((n % 0x100) as u8);
    out.push(((n / 0x100) % 0x100) as u8);
    out.push(((n / 0x10000) % 0x100) as u8);
    out.push(((n / 0x1000000) % 0x100) as u8);
    assert(final(out)@ =~= old(out)@ + le32(n as nat));
}

fn push_le16(out: &mut Vec<u8>, n: usize)
    ensures
        final(out)@ == old(out)@ + le16(n as nat),
{
    out.push((n % 0x100) as u8);
    out.push(((n / 0x100) % 0x100) as u8);
    assert(final(out)@ =~= old(out)@ + le16(n as nat));
}

fn dib_header_bytes(width: u32, height: u32, image_size: usize) -> (r: Vec<u8>)
    ensures
        r@ == dib_header(width, height, image_size as nat),
        r@.len() == DIB_HEADER_SIZE,
{
    let mut out: Vec<u8> = Vec::new();
    push_le32(&mut out, 40);
    push_le32(&mut out, width as usize);
    push_le32(&mut out, height as usize);
    push_le16(&mut out, 1);
    push_le16(&mut out, 32);
    push_le32(&mut out, 0);
    push_le32(&mut out, image_size);
    push_le32(&mut out, 0);
    push_le32(&mut out, 0);
    push_le32(&mut out, 0);
    push_le32(&mut out, 0);
    out
}

/// Byte `row * stride + col * 4 + k` of the bitmap pixels comes from column `col`, channel
/// `channel_swap(k)` of RGBA row `height - 1 - row`.
proof fn lemma_dib_source(width: nat, height: nat, row: nat, col: nat, k: int)
    requires
        col < width,
        0 <= k < 4,
    ensures
        dib_source_index(width, height, row * (width * 4) + col * 4 + k) == (height - 1 - row) * (
        width * 4) + col * 4 + channel_swap(k),
{
    let stride = (width * 4) as int;
    let j = row * stride + col * 4 + k;
    assert(col * 4 + k < stride) by (nonlinear_arith)
        requires
            col < width,
            0 <= k < 4,
            stride == width * 4,
    ;
    lemma_fundamental_div_mod_converse(j, stride, row as int, col * 4 + k);
    lemma_fundamental_div_mod_converse(col * 4 + k, 4, col as int, k);
}

/// The device-independent bitmap that the clipboard takes for an RGBA image: the header,
/// then the rows bottom first in BGRA order, then zeros for the rest of the buffer.
pub fn dib_from_rgba(width: u32, height: u32, pixels: &Vec<u8>) -> (r: Vec<u8>)
    requires
        pixels@.len() >= width * height * 4,
    ensures
        r@ == spec_dib_bytes(width, height, pixels@),
{
    let len = pixels.len();
    let mut out = dib_header_bytes(width, height, len);
    let ghost header = out@;
    let ghost w = width as nat;
    let ghost h = height as nat;
    let mut filled: usize = 0;
    if width > 0 && height > 0 {
        assert(width * 4 <= width * height * 4) by (nonlinear_arith)
            requires
                height > 0,
        ;
        let stride: usize = width as usize * 4;
        assert(height * stride == width * height * 4) by (nonlinear_arith)
            requires
                stride == width * 4,
        ;
        let mut row: usize = 0;
        while row < height as usize
            invariant
                0 < width,
                0 < height,
                stride == width * 4,
                height * stride == width * height * 4 <= len == pixels@.len(),
                w == width,
                h == height,
                row <= height,
                filled == row * stride,
                out@.len() == DIB_HEADER_SIZE + filled,
                out@.take(DIB_HEADER_SIZE as int) == header,
                forall|j: int|
                    0 <= j < filled ==> #[trigger] out@[DIB_HEADER_SIZE + j] == pixels@[dib_source_index(
                        w,
                        h,
                        j,
                    )],
            decreases height - row,
        {
            assert((row + 1) * stride <= height * stride) by (nonlinear_arith)
                requires
                    row < height,
            ;
            assert((row + 1) * stride == row * stride + stride) by (nonlinear_arith);
            let src_row: usize = height as usize - 1 - row;
            assert(src_row * stride + stride <= height * stride) by (nonlinear_arith)
                requires
                    src_row < height,
            ;
            let src_base: usize = src_row * stride;
            let mut col: usize = 0;
            while col < width as usize
                invariant
                    0 < width,
                    stride == width * 4,
                    height * stride <= len == pixels@.len(),
                    w == width,
                    h == height,
                    row < height,
                    src_row == height - 1 - row,
                    src_base == src_row * stride,
                    src_base + stride <= len,
                    col <= width,
                    row * stride + stride <= height * stride,
                    filled == row * stride + col * 4,
                    out@.len() == DIB_HEADER_SIZE + filled,
                    out@.take(DIB_HEADER_SIZE as int) == header,
                    forall|j: int|
                        0 <= j < filled ==> #[trigger] out@[DIB_HEADER_SIZE + j]
                            == pixels@[dib_source_index(w, h, j)],
                decreases width - col,
            {
                let s: usize = src_base + col * 4;
                proof {
                    lemma_dib_source(w, h, row as nat, col as nat, 0);
                    lemma_dib_source(w, h, row as nat, col as nat, 1);
                    lemma_dib_source(w, h, row as nat, col as nat, 2);
                    lemma_dib_source(w, h, row as nat, col as nat, 3);
                    assert(w * 4 == stride);
                }
                let ghost before = out@;
                out.push(pixels[s + 2]);
                out.push(pixels[s + 1]);
                out.push(pixels[s]);
                out.push(pixels[s + 3]);
                proof {
                    assert(out@.take(DIB_HEADER_SIZE as int) =~= before.take(DIB_HEADER_SIZE as int));
                    assert forall|j: int| 0 <= j < filled + 4 implies #[trigger] out@[DIB_HEADER_SIZE
                        + j] == pixels@[dib_source_index(w, h, j)] by {
                        if j >= filled {
                            let k = j - filled;
                            assert(j == row * (w * 4) + col * 4 + k);
                        } else {
                            assert(out@[DIB_HEADER_SIZE + j] == before[DIB_HEADER_SIZE + j]);
                        }
                    }
                }
                filled = filled + 4;
                col += 1;
            }
            assert(filled == (row + 1) * stride);
            row += 1;
        }
        assert(filled == width * height * 4);
    } else {
        assert(width * height * 4 == 0) by (nonlinear_arith)
            requires
                width == 0 || height == 0,
        ;
    }
    let ghost image_len = filled as int;
    while filled < len
        invariant
            image_len == width * height * 4 <= len == pixels@.len(),
            w == width,
            h == height,
            image_len <= filled <= len,
            out@.len() == DIB_HEADER_SIZE + filled,
            out@.take(DIB_HEADER_SIZE as int) == header,
            forall|j: int|
                0 <= j < image_len ==> #[trigger] out@[DIB_HEADER_SIZE + j] == pixels@[dib_source_index(
                    w,
                    h,
                    j,
                )],
            forall|j: int| image_len <= j < filled ==> #[trigger] out@[DIB_HEADER_SIZE + j] == 0u8,
        decreases len - filled,
    {
        let ghost before = out@;
        out.push(0u8);
        proof {
            assert(out@.take(DIB_HEADER_SIZE as int) =~= before.take(DIB_HEADER_SIZE as int));
            assert forall|j: int| 0 <= j < filled implies #[trigger] out@[DIB_HEADER_SIZE + j] == before[DIB_HEADER_SIZE
                + j] by {}
        }
        filled = filled + 1;
    }
    proof {
        let spec = spec_dib_bytes(width, height, pixels@);
        assert(out@.len() == spec.len());
        assert forall|i: int| 0 <= i < out@.len() implies out@[i] == spec[i] by {
            if i < DIB_HEADER_SIZE {
                assert(out@[i] == out@.take(DIB_HEADER_SIZE as int)[i]);
            } else {
                let j = i - DIB_HEADER_SIZE;
                assert(out@[DIB_HEADER_SIZE + j] == out@[i]);
            }
        }
        assert(out@ =~= spec);
    }
    out
}

/// The RGBA pixels of an image as the `image` crate decodes it: width, height and the raw
/// buffer (top row first, four bytes per pixel), or the text of its error.
pub uninterp spec fn rgba_image(data: Seq<u8>) -> Result<(u32, u32, Seq<u8>), Seq<char>>;

/// `image::load_from_memory`, `DynamicImage::into_rgba8`, `ImageBuffer::dimensions` and
/// `ImageBuffer::into_raw`. The crate's image buffers are never shorter than width times
/// height times four bytes (`ImageBuffer::new` allocates exactly that, `from_raw` refuses
/// less).
#[verifier::external_body]
fn decode_rgba(data: &[u8]) -> (r: Result<(u32, u32, Vec<u8>), String>)
    ensures
        match r {
            Ok((w, h, p)) => rgba_image(data@) == Ok::<(u32, u32, Seq<u8>), Seq<char>>((w, h, p@))
                && p@.len() >= w * h * 4,
            Err(e) => rgba_image(data@) == Err::<(u32, u32, Seq<u8>), Seq<char>>(e@),
        },
{
    let rgba = image::load_from_memory(data).map_err(|error| error.to_string())?.into_rgba8();
    let (width, height) = rgba.dimensions();
    Ok((width, height, rgba.into_raw()))
}

/// The bitmap put on the clipboard beside a PNG: that of the decoded image, or the decoding
/// error.
pub open spec fn spec_dib_bytes_from_png(png: Seq<u8>) -> Result<Seq<u8>, Seq<char>> {
    match rgba_image(png) {
        Ok((w, h, p)) => Ok(spec_dib_bytes(w, h, p)),
        Err(e) => Err(e),
    }
}

/// Converts an encoded image to the bitmap format of the clipboard.
pub fn dib_bytes_from_png_bytes(png_bytes: &[u8]) -> (r: Result<Vec<u8>, AppError>)
    ensures
        match r {
            Ok(b) => spec_dib_bytes_from_png(png_bytes@) == Ok::<Seq<u8>, Seq<char>>(b@),
            Err(e) => spec_dib_bytes_from_png(png_bytes@) == Err::<Seq<u8>, Seq<char>>(
                e.spec_message(),
            ),
        },
{
    match decode_rgba(png_bytes) {
        Ok((w, h, p)) => Ok(dib_from_rgba(w, h, &p)),
        Err(e) => Err(AppError::Message(e)),
    }
}


/// Channel `k` of the pixel in column `x` of row `y` (from the top) of the RGBA image stands
/// in the bitmap in row `height - 1 - y` (from the bottom), at channel `channel_swap(k)`: the
/// rows are stored bottom first and red and blue trade places.
pub proof fn law_dib_pixel_position(width: u32, height: u32, pixels: Seq<u8>, x: int, y: int, k: int)
    requires
        pixels.len() >= width * height * 4,
        0 <= x < width,
        0 <= y < height,
        0 <= k < 4,
    ensures
        spec_dib_bytes(width, height, pixels).len() == DIB_HEADER_SIZE + pixels.len(),
        spec_dib_bytes(width, height, pixels)[DIB_HEADER_SIZE + (height - 1 - y) * (width * 4) + x * 4 + k]
            == pixels[y * (width * 4) + x * 4 + channel_swap(k)],
{
    let w = width as nat;
    let h = height as nat;
    let row = (h - 1 - y) as nat;
    let i = row * (w * 4) + x * 4 + k;
    lemma_dib_source(w, h, row, x as nat, k);
    assert(h - 1 - row == y);
    assert(i < width * height * 4) by (nonlinear_arith)
        requires
            i == row * (w * 4) + x * 4 + k,
            row < h,
            0 <= x < w,
            0 <= k < 4,
            w == width,
            h == height,
    ;
    assert(spec_dib_bytes(width, height, pixels)[DIB_HEADER_SIZE + i] == dib_pixels(width, height, pixels)[i]);
}

} // verus!
