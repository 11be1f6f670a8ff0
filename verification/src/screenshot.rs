use vstd::prelude::*;
use vstd::arithmetic::div_mod::{lemma_fundamental_div_mod_converse, lemma_div_pos_is_pos};
use crate::framebuffer::{FrameBuffer, FrameView, PixelFormat, Rgb8, is_drawable, lemma_point_offset};
use uefi::CString16;
use uefi::data_types::FromStrError;

verus! {

/// Bytes per row of a 24-bit BMP of this width: three per pixel, padded to a
/// multiple of four.
pub open spec fn bmp_row_size(width: int) -> int {
    (width * 3 + 3) / 4 * 4
}

/// Size of the whole file: the 14 byte file header, the 40 byte info header
/// and the rows.
pub open spec fn bmp_size(v: FrameView) -> int {
    54 + bmp_row_size(v.width as int) * v.height
}

/// The 54 header bytes: "BM", the file size (32 bits, little endian), the
/// offset 54 of the pixels, the info header size 40, the width and height
/// (their low 16 bits, little endian), one plane and 24 bits per pixel.
pub open spec fn bmp_header_byte(size: int, width: int, height: int, i: int) -> u8 {
    if i == 0 {
        66
    } else if i == 1 {
        77
    } else if i == 2 {
        (size % 256) as u8
    } else if i == 3 {
        (size / 0x100 % 256) as u8
    } else if i == 4 {
        (size / 0x10000 % 256) as u8
    } else if i == 5 {
        (size / 0x1000000 % 256) as u8
    } else if i == 10 {
        54
    } else if i == 14 {
        40
    } else if i == 18 {
        (width % 256) as u8
    } else if i == 19 {
        (width / 256 % 256) as u8
    } else if i == 22 {
        (height % 256) as u8
    } else if i == 23 {
        (height / 256 % 256) as u8
    } else if i == 26 {
        1
    } else if i == 28 {
        24
    } else {
        0
    }
}

/// The byte at position `k` (0..3) of a BMP pixel of `color`: blue, green, red.
pub open spec fn bmp_channel(color: Rgb8, k: int) -> u8 {
    if k == 0 {
        color.2
    } else if k == 1 {
        color.1
    } else {
        color.0
    }
}

/// Byte `k` (0..3) of the pixel at (`x`, `y`) in the BMP image: its colour
/// stored blue, green, red where the format is RGB or BGR; in any other format
/// the pixel's memory bytes 2, 1 and 0, copied as they are.
pub open spec fn bmp_pixel_byte(v: FrameView, x: int, y: int, k: int) -> u8 {
    if is_drawable(v.format) {
        bmp_channel(v.read(x, y), k)
    } else {
        v.mem[v.offset(x, y) + 2 - k]
    }
}

/// Byte `i` of the BMP image of the frame buffer. Rows are stored bottom row
/// first, each pixel as `bmp_pixel_byte` says; row padding is zero.
pub open spec fn bmp_byte(v: FrameView, i: int) -> u8 {
    let row = bmp_row_size(v.width as int);
    if i < 54 {
        bmp_header_byte(bmp_size(v), v.width as int, v.height as int, i)
    } else {
        let k = i - 54;
        let rx = k % row;
        let y = v.height - 1 - k / row;
        if rx < 3 * v.width {
            bmp_pixel_byte(v, rx / 3, y, rx % 3)
        } else {
            0
        }
    }
}

/// `bytes` is the BMP image of the frame buffer.
pub open spec fn is_bmp_of(bytes: Seq<u8>, v: FrameView) -> bool {
    &&& bytes.len() == bmp_size(v)
    &&& forall|i: int| 0 <= i < bytes.len() ==> bytes[i] == bmp_byte(v, i)
}

/// The image fits in memory.
pub open spec fn bmp_fits(v: FrameView) -> bool {
    &&& v.width * 3 + 3 <= usize::MAX
    &&& bmp_size(v) <= usize::MAX
}

/// The pixel byte at file position `i` (past the headers) is already written
/// when its pixel comes before (`x`, `y`) in scan order.
spec fn pixel_written(v: FrameView, i: int, y: int, x: int) -> bool {
    let row = bmp_row_size(v.width as int);
    let k = i - 54;
    let py = v.height - 1 - k / row;
    let px = (k % row) / 3;
    &&& i >= 54
    &&& k % row < 3 * v.width
    &&& 0 <= py
    &&& (py < y || (py == y && px < x))
}

/// What the buffer holds part way through: the headers, the pixels written
/// so far, zero everywhere else.
spec fn partial_image(v: FrameView, y: int, x: int) -> Seq<u8> {
    Seq::new(
        bmp_size(v) as nat,
        |i: int|
            if i < 54 {
                bmp_header_byte(bmp_size(v), v.width as int, v.height as int, i)
            } else if pixel_written(v, i, y, x) {
                bmp_byte(v, i)
            } else {
                0
            },
    )
}

proof fn lemma_row_size(w: usize)
    requires
        w * 3 + 3 <= usize::MAX,
    ensures
        ((w * 3 + 3) as usize & !3usize) as int == bmp_row_size(w as int),
        bmp_row_size(w as int) >= 3 * w,
        bmp_row_size(w as int) >= 0,
{
    let a = (w * 3 + 3) as usize;
    assert(a & !3usize == a - a % 4) by (bit_vector);
}

/// The bytes of the pixel at (`x`, `y`) are the three bytes from `dst` on.
proof fn lemma_file_byte(v: FrameView, y: int, x: int, i: int)
    requires
        bmp_row_size(v.width as int) >= 3 * v.width,
        0 <= y < v.height,
        0 <= x < v.width,
        i >= 54,
    ensures
        ({
            let row = bmp_row_size(v.width as int);
            let k = i - 54;
            let dst = 54 + (v.height - 1 - y) * row + x * 3;
            &&& (k % row < 3 * v.width && v.height - 1 - k / row == y && (k % row) / 3 == x) <==> (dst <= i
                < dst + 3)
            &&& dst <= i < dst + 3 ==> k % row == x * 3 + (i - dst)
        }),
{
    let row = bmp_row_size(v.width as int);
    let k = i - 54;
    let ry = v.height - 1 - y;
    let dst = 54 + ry * row + x * 3;
    vstd::arithmetic::div_mod::lemma_fundamental_div_mod(k, row);
    vstd::arithmetic::div_mod::lemma_mod_pos_bound(k, row);
    vstd::arithmetic::mul::lemma_mul_is_commutative(row, k / row);
    if dst <= i < dst + 3 {
        lemma_fundamental_div_mod_converse(k, row, ry, x * 3 + (i - dst));
    }
    if k % row < 3 * v.width && v.height - 1 - k / row == y && (k % row) / 3 == x {
        assert(k == ry * row + k % row);
    }
}

/// The three bytes the BMP image holds for the on-screen pixel at (`x`, `y`).
fn pixel_bytes(fb: &FrameBuffer, x: usize, y: usize) -> (p: (u8, u8, u8))
    requires
        fb@.on_screen(x as int, y as int),
    ensures
        p.0 == bmp_pixel_byte(fb@, x as int, y as int, 0),
        p.1 == bmp_pixel_byte(fb@, x as int, y as int, 1),
        p.2 == bmp_pixel_byte(fb@, x as int, y as int, 2),
{
    match fb.pixel_format() {
        PixelFormat::Rgb | PixelFormat::Bgr => {
            let (r, g, b) = fb.read_pixel(x, y);
            (b, g, r)
        },
        _ => {
            let stride = fb.stride();
            proof {
                lemma_point_offset(fb@, x as int, y as int);
            }
            assert(y * stride <= y * stride * 4);
            let o = y * stride * 4 + x * 4;
            (fb.byte_at(o + 2), fb.byte_at(o + 1), fb.byte_at(o))
        },
    }
}

/// The frame buffer as a 24-bit BMP file, bottom row first.
pub fn screenshot_bmp(fb: &FrameBuffer) -> (buf: Vec<u8>)
    requires
        bmp_fits(fb@),
    ensures
        is_bmp_of(buf@, fb@),
{
    let ghost v = fb@;
    let width = fb.width();
    let height = fb.height();
    proof {
        lemma_row_size(width);
    }
    let row_size = (width * 3 + 3) & !3usize;
    assert(row_size * height <= usize::MAX) by (nonlinear_arith)
        requires
            54 + row_size * height <= usize::MAX,
            row_size >= 0,
    ;
    let file_size = 14 + 40 + row_size * height;
    let mut buf: Vec<u8> = vec![0u8; file_size];

    buf[0] = 66;
    buf[1] = 77;
    buf[2] = (file_size & 0xFF) as u8;
    buf[3] = ((file_size >> 8) & 0xFF) as u8;
    buf[4] = ((file_size >> 16) & 0xFF) as u8;
    buf[5] = ((file_size >> 24) & 0xFF) as u8;
    buf[10] = 54;

    buf[14] = 40;
    buf[18] = (width & 0xFF) as u8;
    buf[19] = ((width >> 8) & 0xFF) as u8;
    buf[22] = (height & 0xFF) as u8;
    buf[23] = ((height >> 8) & 0xFF) as u8;
    buf[26] = 1;
    buf[28] = 24;

    proof {
        assert(file_size & 0xFF == file_size % 256) by (bit_vector);
        assert((file_size >> 8) & 0xFF == file_size / 0x100 % 256) by (bit_vector);
        assert((file_size >> 16) & 0xFF == file_size / 0x10000 % 256) by (bit_vector);
        assert((file_size >> 24) & 0xFF == file_size / 0x1000000 % 256) by (bit_vector);
        assert(width & 0xFF == width % 256) by (bit_vector);
        assert((width >> 8) & 0xFF == width / 256 % 256) by (bit_vector);
        assert(height & 0xFF == height % 256) by (bit_vector);
        assert((height >> 8) & 0xFF == height / 256 % 256) by (bit_vector);
        assert(buf@ =~= partial_image(v, 0, 0));
    }

    for y in 0..height
        invariant
            buf@ == partial_image(v, y as int, 0),
            v == fb@,
            v.wf(),
            width == v.width,
            height == v.height,
            row_size == bmp_row_size(width as int),
            row_size >= 3 * width,
            file_size == bmp_size(v),
    {
        assert((height - 1 - y) * row_size <= row_size * height) by (nonlinear_arith)
            requires
                y < height,
        ;
        let dst_offset = 54 + (height - 1 - y) * row_size;
        for x in 0..width
            invariant
                buf@ == partial_image(v, y as int, x as int),
                v == fb@,
                v.wf(),
                width == v.width,
                height == v.height,
                row_size == bmp_row_size(width as int),
                row_size >= 3 * width,
                file_size == bmp_size(v),
                y < height,
                dst_offset == 54 + (height - 1 - y) * row_size,
        {
            assert(dst_offset + x * 3 + 3 <= file_size) by (nonlinear_arith)
                requires
                    dst_offset == 54 + (height - 1 - y) * row_size,
                    x < width,
                    row_size >= 3 * width,
                    y < height,
                    file_size == 54 + row_size * height,
            ;
            let dst_idx = dst_offset + x * 3;
            let (b0, b1, b2) = pixel_bytes(fb, x, y);
            buf[dst_idx] = b0;
            buf[dst_idx + 1] = b1;
            buf[dst_idx + 2] = b2;
            proof {
                assert forall|i: int| 0 <= i < buf@.len() implies buf@[i] == partial_image(
                    v,
                    y as int,
                    x + 1,
                )[i] by {
                    if i >= 54 {
                        lemma_file_byte(v, y as int, x as int, i);
                    }
                }
                assert(buf@ =~= partial_image(v, y as int, x + 1));
            }
        }
        proof {
            assert forall|i: int| 0 <= i < buf@.len() implies buf@[i] == partial_image(v, y + 1, 0)[i] by {
                if i >= 54 {
                    let k = i - 54;
                    lemma_div_pos_is_pos(k, row_size as int);
                }
            }
            assert(buf@ =~= partial_image(v, y + 1, 0));
        }
    }
    proof {
        assert forall|i: int| 0 <= i < buf@.len() implies buf@[i] == bmp_byte(v, i) by {
            if i >= 54 {
                let k = i - 54;
                let row = row_size as int;
                vstd::arithmetic::div_mod::lemma_fundamental_div_mod(k, row);
                vstd::arithmetic::div_mod::lemma_mod_pos_bound(k, row);
                lemma_div_pos_is_pos(k, row);
                if k / row >= height {
                    assert(k >= row * height) by (nonlinear_arith)
                        requires
                            k / row >= height,
                            k == row * (k / row) + k % row,
                            k % row >= 0,
                            row > 0,
                    ;
                }
            }
        }
    }
    buf
}

/// The image holds every pixel the way BMP stores it, in the row counted
/// from the bottom: its colour as blue, green, red where the format is RGB or
/// BGR, and its memory bytes 2, 1, 0 as they are in any other format.
pub proof fn lemma_bmp_pixel(v: FrameView, x: int, y: int)
    requires
        v.wf(),
        v.on_screen(x, y),
    ensures
        ({
            let o = 54 + (v.height - 1 - y) * bmp_row_size(v.width as int) + x * 3;
            let m = v.offset(x, y);
            &&& o + 3 <= bmp_size(v)
            &&& is_drawable(v.format) ==> bmp_byte(v, o) == v.read(x, y).2 && bmp_byte(v, o + 1) == v.read(
                x,
                y,
            ).1 && bmp_byte(v, o + 2) == v.read(x, y).0
            &&& !is_drawable(v.format) ==> bmp_byte(v, o) == v.mem[m + 2] && bmp_byte(v, o + 1) == v.mem[m
                + 1] && bmp_byte(v, o + 2) == v.mem[m]
        }),
{
    let row = bmp_row_size(v.width as int);
    assert(row >= 3 * v.width);
    let o = 54 + (v.height - 1 - y) * row + x * 3;
    assert(o + 3 <= 54 + row * v.height) by (nonlinear_arith)
        requires
            o == 54 + (v.height - 1 - y) * row + x * 3,
            0 <= x < v.width,
            0 <= y < v.height,
            row >= 3 * v.width,
    ;
    lemma_file_byte(v, y, x, o);
    lemma_file_byte(v, y, x, o + 1);
    lemma_file_byte(v, y, x, o + 2);
}

/// Whether the BMP image of the frame buffer fits in memory, so that
/// `screenshot_bmp` may be called.
pub fn screenshot_fits(fb: &FrameBuffer) -> (b: bool)
    ensures
        b == bmp_fits(fb@),
{
    let width = fb.width();
    let height = fb.height();
    let line = match width.checked_mul(3) {
        Some(n) => match n.checked_add(3) {
            Some(m) => m,
            None => return false,
        },
        None => return false,
    };
    let row = line / 4 * 4;
    match row.checked_mul(height) {
        Some(n) => n.checked_add(54).is_some(),
        None => false,
    }
}

/// The firmware's owned UCS-2 string.
#[verifier::external_type_specification]
#[verifier::external_body]
pub struct ExCString16(CString16);

/// Why a string could not be turned into UCS-2.
#[verifier::external_type_specification]
#[verifier::external_body]
pub struct ExFromStrError(FromStrError);

/// A character UCS-2 can hold in a file name: in the Basic Multilingual
/// Plane, and not NUL.
pub open spec fn ucs2_char(c: char) -> bool {
    c != '\0' && (c as u32) <= 0xFFFF
}

pub open spec fn ucs2_encodable(s: Seq<char>) -> bool {
    forall|i: int| 0 <= i < s.len() ==> ucs2_char(#[trigger] s[i])
}

/// The UCS-2 string, with its terminating NUL, that uefi makes of `name`.
pub uninterp spec fn cstring16_of(name: Seq<char>) -> CString16;

/// `CString16::try_from(&str)` from uefi: it encodes the string as UTF-16 and
/// fails on the first unit that is a surrogate (a character outside the
/// Basic Multilingual Plane) or NUL, so it succeeds exactly when every
/// character is in the plane and none is NUL. The string it makes depends on
/// the characters alone, named `cstring16_of`. Which error variant comes back
/// is left unsaid here, as the type is opaque to the proofs.
#[verifier::external_body]
fn cstring16_from_str(name: &str) -> (r: Result<CString16, FromStrError>)
    ensures
        r is Ok <==> ucs2_encodable(name@),
        r matches Ok(p) ==> p == cstring16_of(name@),
{
    CString16::try_from(name)
}

/// The name of the screenshot file as the firmware takes it; "bad filename"
/// when a character cannot be encoded.
pub fn screenshot_file_name(name: &str) -> (r: Result<CString16, &'static str>)
    ensures
        r is Ok <==> ucs2_encodable(name@),
        r matches Ok(p) ==> p == cstring16_of(name@),
        r matches Err(e) ==> e == "bad filename",
{
    match cstring16_from_str(name) {
        Ok(path) => Ok(path),
        Err(_) => Err("bad filename"),
    }
}

/// The 54 header bytes of a BMP image of the frame buffer: the signature
/// "BM", the file size as a 32-bit little-endian number, pixel data at
/// offset 54, a 40-byte info header, the width and height in their first two
/// bytes, one plane, 24 bits per pixel, and zero everywhere else: reserved
/// fields, no compression (bytes 30..34), no palette.
pub proof fn lemma_bmp_header(bytes: Seq<u8>, v: FrameView)
    requires
        is_bmp_of(bytes, v),
    ensures
        bytes.len() >= 54,
        bytes[0] == 66 && bytes[1] == 77,
        bytes[2] + 256 * bytes[3] + 65536 * bytes[4] + 16777216 * bytes[5] == bmp_size(v) % 0x1_0000_0000,
        bytes[10] == 54,
        bytes[14] == 40,
        bytes[18] + 256 * bytes[19] == v.width % 65536,
        bytes[22] + 256 * bytes[23] == v.height % 65536,
        bytes[26] == 1,
        bytes[28] == 24,
        forall|i: int|
            0 <= i < 54 && !(0 <= i < 6 || i == 10 || i == 14 || i == 18 || i == 19 || i == 22 || i == 23
                || i == 26 || i == 28) ==> bytes[i] == 0,
{
    assert(bmp_row_size(v.width as int) >= 0);
    assert(bmp_size(v) >= 54) by (nonlinear_arith)
        requires
            bmp_row_size(v.width as int) >= 0,
            v.height >= 0,
            bmp_size(v) == 54 + bmp_row_size(v.width as int) * v.height,
    ;
    assert forall|i: int| 0 <= i < 54 implies bytes[i] == bmp_header_byte(bmp_size(v), v.width as int, v.height as int, i) by {
        assert(bytes[i] == bmp_byte(v, i));
    }
    lemma_two_bytes(v.width as int);
    lemma_two_bytes(v.height as int);
    lemma_four_bytes(bmp_size(v));
}

/// A number's two low bytes make it up to 2^16.
proof fn lemma_two_bytes(n: int)
    requires
        n >= 0,
    ensures
        (n % 256) + 256 * (n / 256 % 256) == n % 65536,
{
    vstd::arithmetic::div_mod::lemma_breakdown(n, 256, 256);
}

/// A number's four low bytes make it up to 2^32.
proof fn lemma_four_bytes(n: int)
    requires
        n >= 0,
    ensures
        (n % 256) + 256 * (n / 0x100 % 256) + 65536 * (n / 0x10000 % 256) + 16777216 * (n / 0x1000000 % 256)
            == n % 0x1_0000_0000,
{
    vstd::arithmetic::div_mod::lemma_breakdown(n, 256, 256);
    vstd::arithmetic::div_mod::lemma_breakdown(n, 65536, 65536);
    vstd::arithmetic::div_mod::lemma_breakdown(n / 65536, 256, 256);
    vstd::arithmetic::div_mod::lemma_div_denominator(n, 65536, 256);
}

/// The BMP rows run bottom up, each `bmp_row_size(width)` bytes long (three
/// bytes per pixel, padded to a multiple of four); the padding at the end of
/// each row is zero.
pub proof fn lemma_bmp_padding(bytes: Seq<u8>, v: FrameView, r: int, k: int)
    requires
        is_bmp_of(bytes, v),
        0 <= r < v.height,
        3 * v.width <= k < bmp_row_size(v.width as int),
    ensures
        54 + r * bmp_row_size(v.width as int) + k < bytes.len(),
        bytes[54 + r * bmp_row_size(v.width as int) + k] == 0,
{
    let row = bmp_row_size(v.width as int);
    let i = 54 + r * row + k;
    assert(r * row + k < row * v.height) by (nonlinear_arith)
        requires
            0 <= r < v.height,
            0 <= k < row,
    ;
    lemma_fundamental_div_mod_converse(r * row + k, row, r, k);
    assert(bytes[i] == bmp_byte(v, i));
}

} // verus!
