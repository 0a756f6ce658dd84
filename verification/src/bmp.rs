use vstd::prelude::*;

verus! {

/// A bitmap image decoded into plain values: its dimensions and one
/// `(r, g, b)` triple per pixel, row by row in file order.
pub struct BMP {
    pub width: usize,
    pub height: usize,
    pub pixels: Vec<(u8, u8, u8)>,
}

/// Why a byte string failed to decode.
#[derive(Clone, Copy, Debug, PartialEq, Eq, Structural)]
pub enum BmpError {
    /// Shorter than the header fields that are read (26 bytes).
    HeaderTooShort,
    /// The header promises pixel rows that run past the end.
    PixelDataTruncated,
}

/// The little-endian 32-bit value whose first byte sits at `off`.
pub open spec fn le_u32_at(bytes: Seq<u8>, off: int) -> int {
    bytes[off] + 0x100 * bytes[off + 1] + 0x1_0000 * bytes[off + 2] + 0x100_0000 * bytes[off
        + 3]
}

/// The big-endian reading of the first four bytes.
pub open spec fn be_u32(bytes: Seq<u8>) -> int {
    0x100_0000 * bytes[0] + 0x1_0000 * bytes[1] + 0x100 * bytes[2] + bytes[3]
}

/// The image width recorded in the header.
pub open spec fn bmp_width(content: Seq<u8>) -> int {
    le_u32_at(content, 18)
}

/// The image height recorded in the header.
pub open spec fn bmp_height(content: Seq<u8>) -> int {
    le_u32_at(content, 22)
}

/// Where the header says the pixel data starts.
pub open spec fn bmp_offset(content: Seq<u8>) -> int {
    le_u32_at(content, 10)
}

/// The filler bytes after each pixel row.
pub open spec fn bmp_padding(content: Seq<u8>) -> int {
    bmp_width(content) % 4
}

/// Distance in bytes from one pixel row to the next.
pub open spec fn bmp_stride(content: Seq<u8>) -> int {
    3 * bmp_width(content) + bmp_padding(content)
}

/// Position of the first byte of pixel `(x, y)`.
pub open spec fn bmp_pixel_pos(content: Seq<u8>, x: int, y: int) -> int {
    bmp_offset(content) + y * bmp_stride(content) + 3 * x
}

/// The `(r, g, b)` triple of pixel `(x, y)`.
pub open spec fn bmp_pixel_at(content: Seq<u8>, x: int, y: int) -> (u8, u8, u8) {
    let p = bmp_pixel_pos(content, x, y);
    (content[p], content[p + 1], content[p + 2])
}

/// Decoding succeeds exactly when the header is present and the last
/// pixel's bytes still lie inside the content.
pub open spec fn bmp_parse_ok(content: Seq<u8>) -> bool {
    &&& content.len() >= 26
    &&& (bmp_width(content) > 0 && bmp_height(content) > 0 ==> bmp_pixel_pos(
        content,
        bmp_width(content) - 1,
        bmp_height(content) - 1,
    ) + 3 <= content.len())
}

impl BMP {
    /// The first four bytes read as one big-endian 32-bit value.
    pub fn bytes_to_u32(bytes: &[u8]) -> (r: u32)
        requires
            bytes@.len() >= 4,
        ensures
            r == be_u32(bytes@),
    {
        0x100_0000 * (bytes[0] as u32) + 0x1_0000 * (bytes[1] as u32) + 0x100 * (
        bytes[2] as u32) + (bytes[3] as u32)
    }

    /// The little-endian 32-bit field at `off`.
    fn read_le_u32(content: &Vec<u8>, off: usize) -> (r: u32)
        requires
            off + 4 <= content.len(),
        ensures
            r == le_u32_at(content@, off as int),
    {
        (content[off] as u32) + 0x100 * (content[off + 1] as u32) + 0x1_0000 * (content[off
            + 2] as u32) + 0x100_0000 * (content[off + 3] as u32)
    }

    /// Decode a bitmap from its raw bytes.  The header is read at the
    /// fixed offsets (pixel data start at 10, width at 18, height at
    /// 22); each pixel contributes three bytes, and each row is
    /// followed by `width % 4` filler bytes.  Content too short for
    /// what its own header promises is rejected, never read past.
    pub fn from_bytes(content: &Vec<u8>) -> (r: Result<BMP, BmpError>)
        ensures
            match r {
                Ok(b) => {
                    &&& bmp_parse_ok(content@)
                    &&& b.width == bmp_width(content@)
                    &&& b.height == bmp_height(content@)
                    &&& b.pixels@.len() == b.width * b.height
                    &&& forall|x: int, y: int|
                        0 <= x < b.width && 0 <= y < b.height ==> #[trigger] b.pixels@[y * (
                        b.width as int) + x] == bmp_pixel_at(content@, x, y)
                },
                Err(e) => {
                    &&& !bmp_parse_ok(content@)
                    &&& e == (if content@.len() < 26 {
                        BmpError::HeaderTooShort
                    } else {
                        BmpError::PixelDataTruncated
                    })
                },
            },
    {
        if content.len() < 26 {
            return Err(BmpError::HeaderTooShort);
        }
        let width = Self::read_le_u32(content, 18);
        let height = Self::read_le_u32(content, 22);
        let offset = Self::read_le_u32(content, 10);
        let padding = width % 4;
        let stride: u64 = 3 * (width as u64) + (padding as u64);

        if width > 0 && height > 0 {
            proof {
                let hh = (height - 1) as u128;
                let ss = stride as u128;
                assert(hh * ss <= 0xFFFF_FFFFu128 * 0x4_0000_0000u128) by (nonlinear_arith)
                    requires
                        hh <= 0xFFFF_FFFFu128,
                        ss <= 0x4_0000_0000u128,
                ;
            }
            let last_pos: u128 = (offset as u128) + ((height - 1) as u128) * (stride as u128) + 3
                * ((width - 1) as u128);
            if last_pos + 3 > (content.len() as u128) {
                return Err(BmpError::PixelDataTruncated);
            }
        }

        let mut pixels: Vec<(u8, u8, u8)> = Vec::new();
        let w = width as usize;
        let h = height as usize;
        let mut index: usize = offset as usize;
        let mut y: usize = 0;
        while y < h
            invariant
                bmp_parse_ok(content@),
                content@.len() == content.len(),
                w == bmp_width(content@),
                h == bmp_height(content@),
                padding == bmp_padding(content@),
                0 <= y <= h,
                y < h ==> index == bmp_offset(content@) + y * bmp_stride(content@),
                pixels@.len() == y * w,
                forall|px: int, py: int|
                    0 <= px < w && 0 <= py < y ==> #[trigger] pixels@[py * (w as int) + px]
                        == bmp_pixel_at(content@, px, py),
            decreases h - y,
        {
            let mut x: usize = 0;
            while x < w
                invariant
                    bmp_parse_ok(content@),
                    content@.len() == content.len(),
                    w == bmp_width(content@),
                    h == bmp_height(content@),
                    0 <= y < h,
                    0 <= x <= w,
                    index == bmp_pixel_pos(content@, x as int, y as int),
                    pixels@.len() == y * w + x,
                    forall|px: int, py: int|
                        0 <= px < w && 0 <= py < y ==> #[trigger] pixels@[py * (w as int) + px]
                            == bmp_pixel_at(content@, px, py),
                    forall|px: int|
                        0 <= px < x ==> #[trigger] pixels@[y * (w as int) + px] == bmp_pixel_at(
                            content@,
                            px,
                            y as int,
                        ),
                decreases w - x,
            {
                proof {
                    lemma_pixel_pos_in_range(content@, x as int, y as int);
                }
                let r = content[index];
                let g = content[index + 1];
                let b = content[index + 2];
                pixels.push((r, g, b));
                proof {
                    assert forall|px: int, py: int| 0 <= px < w && 0 <= py < y implies #[trigger] pixels@[py
                        * (w as int) + px] == bmp_pixel_at(content@, px, py) by {
                        assert(py * (w as int) + px < y * (w as int)) by (nonlinear_arith)
                            requires
                                0 <= px < w,
                                0 <= py < y,
                        ;
                    }
                }
                index = index + 3;
                x = x + 1;
            }
            proof {
                lemma_row_end(content@, y as int);
                assert((y + 1) * (w as int) == y * (w as int) + w) by (nonlinear_arith);
            }
            y = y + 1;
            if y < h {
                proof {
                    if w > 0 {
                        lemma_pixel_pos_in_range(content@, 0, y as int);
                    }
                }
                index = index + padding as usize;
            }
        }
        proof {
            assert((h as int) * (w as int) == (w as int) * (h as int)) by (nonlinear_arith);
        }
        Ok(BMP { width: w, height: h, pixels })
    }

    pub fn get_width(&self) -> (r: usize)
        ensures
            r == self.width,
    {
        self.width
    }

    pub fn get_height(&self) -> (r: usize)
        ensures
            r == self.height,
    {
        self.height
    }

    pub fn get_pixels(&self) -> (r: &Vec<(u8, u8, u8)>)
        ensures
            r@ == self.pixels@,
    {
        &self.pixels
    }
}

/// Every pixel the header promises lies fully inside the content.
proof fn lemma_pixel_pos_in_range(content: Seq<u8>, x: int, y: int)
    requires
        bmp_parse_ok(content),
        0 <= x < bmp_width(content),
        0 <= y < bmp_height(content),
    ensures
        0 <= bmp_pixel_pos(content, x, y),
        bmp_pixel_pos(content, x, y) + 3 <= content.len(),
{
    let w = bmp_width(content);
    let h = bmp_height(content);
    let s = bmp_stride(content);
    vstd::arithmetic::mul::lemma_mul_inequality(y, h - 1, s);
    vstd::arithmetic::mul::lemma_mul_nonnegative(y, s);
}

/// Stepping past the last pixel of a row and over the row's filler
/// bytes lands exactly on the next row's first pixel.
proof fn lemma_row_end(content: Seq<u8>, y: int)
    requires
        content.len() >= 26,
    ensures
        bmp_pixel_pos(content, bmp_width(content), y) + bmp_padding(content) == bmp_pixel_pos(
            content,
            0,
            y + 1,
        ),
{
    let s = bmp_stride(content);
    vstd::arithmetic::mul::lemma_mul_is_distributive_add(s, y, 1);
    assert((y + 1) * s == y * s + s) by (nonlinear_arith);
}

} // verus!
