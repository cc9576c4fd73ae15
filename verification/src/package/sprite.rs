use vstd::prelude::*;
use vstd::string::*;
use vstd::arithmetic::div_mod::{lemma_fundamental_div_mod, lemma_fundamental_div_mod_converse};

verus! {

/// A decoded image: `width` × `height` pixels, row by row from the top left,
/// four bytes (red, green, blue, alpha) per pixel.
pub struct RgbaSheet {
    pub width: u32,
    pub height: u32,
    pub pixels: Vec<u8>,
}

impl RgbaSheet {
    /// The pixel bytes cover the whole image.
    pub open spec fn wf(&self) -> bool {
        self.pixels@.len() == self.width * self.height * 4
    }
}

/// One frame of an animation: `width` × `height` pixels, row by row, four
/// bytes (red, green, blue, alpha) per pixel.
#[derive(Clone, Debug)]
pub struct Frame {
    pub width: u32,
    pub height: u32,
    pub rgba: Vec<u8>,
}

/// What the `image` crate makes of the bytes of an image file: its width,
/// height and RGBA pixel bytes, or the text of its decoding error.
pub uninterp spec fn decoded_image(bytes: Seq<u8>) -> Result<(u32, u32, Seq<u8>), Seq<char>>;

/// Decodes an image file held in memory with `image::load_from_memory`
/// (format guessed from the bytes) and converts it to 8-bit RGBA with
/// `DynamicImage::to_rgba8`. Claimed: the outcome is `decoded_image` of the
/// bytes, an error carrying the `Display` text of the `ImageError`; a decoded
/// image has exactly four bytes per pixel (`to_rgba8` fills a buffer made by
/// `ImageBuffer::new`, which allocates width × height × 4 bytes).
#[verifier::external_body]
fn decode_rgba(bytes: &[u8]) -> (res: Result<RgbaSheet, String>)
    ensures
        match res {
            Ok(s) => {
                &&& decoded_image(bytes@) matches Ok((w, h, p))
                &&& w == s.width && h == s.height && p == s.pixels@
                &&& s.wf()
            },
            Err(e) => decoded_image(bytes@) matches Err(m) && m == e@,
        },
{
    match image::load_from_memory(bytes) {
        Ok(img) => {
            let rgba = img.to_rgba8();
            Ok(RgbaSheet { width: rgba.width(), height: rgba.height(), pixels: rgba.into_raw() })
        },
        Err(e) => Err(e.to_string()),
    }
}

/// Byte `c` (0 red, 1 green, 2 blue, 3 alpha) of the pixel at column `x`,
/// row `y` of an image `width` pixels wide.
pub open spec fn sheet_byte(width: int, pixels: Seq<u8>, x: int, y: int, c: int) -> u8 {
    pixels[(y * width + x) * 4 + c]
}

/// The RGBA bytes, row by row, of the `fw` × `fh` block of an image `width`
/// pixels wide whose top left corner is at column `x0`, row 0.
pub open spec fn block_bytes(width: int, pixels: Seq<u8>, x0: int, fw: int, fh: int) -> Seq<u8> {
    Seq::new(
        (fw * fh * 4) as nat,
        |k: int| sheet_byte(width, pixels, x0 + (k / 4) % fw, (k / 4) / fw, k % 4),
    )
}

/// Frame `i` of width `fw` starts on a sheet `width` pixels wide, and its
/// right edge lies beyond `u32::MAX`.
pub open spec fn edge_overflows(width: int, i: int, fw: int) -> bool {
    i * fw <= width && (i + 1) * fw > u32::MAX
}

/// Cutting `frames` frames of `fw` × `fh` pixels out of a `width` × `height`
/// sheet cannot be carried out: the first frame fits across the sheet, and
/// the frames are taller than the sheet, or one frame holds more than
/// `u32::MAX` bytes, or the right edge of a frame that starts on the sheet
/// lies beyond `u32::MAX`.
pub open spec fn unsliceable(width: int, height: int, frames: int, fw: int, fh: int) -> bool {
    &&& frames > 0
    &&& fw <= width
    &&& {
        ||| fh > height
        ||| fw * fh * 4 > u32::MAX
        ||| exists|i: int| 1 <= i < frames && #[trigger] edge_overflows(width, i, fw)
    }
}

/// The frames a sprite sheet file yields, or the error it gives: the
/// decoding error; an error for a layout that cannot be cut; an error when
/// the frames side by side are wider than the sheet; else frame `i` is the
/// block at column `i * fw`.
pub open spec fn sprite_sheet_outcome(bytes: Seq<u8>, frames: int, fw: u32, fh: u32)
    -> Result<Seq<Seq<u8>>, Seq<char>> {
    match decoded_image(bytes) {
        Err(e) => Err(e),
        Ok((w, h, p)) => if unsliceable(w as int, h as int, frames, fw as int, fh as int) {
            Err("Sprite sheet frames do not fit the image"@)
        } else if frames * fw > w {
            Err("Sprite sheet image too small for declared frame count"@)
        } else {
            Ok(Seq::new(frames as nat, |i: int| block_bytes(w as int, p, i * fw, fw as int, fh as int)))
        },
    }
}

/// Byte `c` of pixel (`x`, `y`) of a cut block is byte `c` of the sheet's
/// pixel (`x0 + x`, `y`), every channel alpha included: position
/// `(y * fw + x) * 4 + c` of the block is position
/// `(y * width + x0 + x) * 4 + c` of the sheet's bytes.
pub proof fn lemma_block_byte(width: int, pixels: Seq<u8>, x0: int, fw: int, fh: int, x: int, y: int, c: int)
    requires
        0 <= x < fw,
        0 <= y < fh,
        0 <= c < 4,
    ensures
        (y * fw + x) * 4 + c < block_bytes(width, pixels, x0, fw, fh).len(),
        block_bytes(width, pixels, x0, fw, fh)[(y * fw + x) * 4 + c] == pixels[(y * width + x0 + x) * 4 + c],
{
    lemma_block_position(y, x, c, fw);
    assert((y * fw + x) * 4 + c < fw * fh * 4) by (nonlinear_arith)
        requires 0 <= x < fw, 0 <= y < fh, 0 <= c < 4;
}

/// Position `k` of a block's bytes is channel `c` of the pixel at column
/// `px`, row `y` of the block, where `k == (y * fw + px) * 4 + c`.
proof fn lemma_block_position(y: int, px: int, c: int, fw: int)
    requires
        y >= 0,
        0 <= px < fw,
        0 <= c < 4,
    ensures
        ({
            let k = (y * fw + px) * 4 + c;
            &&& k / 4 == y * fw + px
            &&& k % 4 == c
            &&& (k / 4) / fw == y
            &&& (k / 4) % fw == px
        }),
{
    let k = (y * fw + px) * 4 + c;
    lemma_fundamental_div_mod_converse(k, 4, y * fw + px, c);
    lemma_fundamental_div_mod_converse(y * fw + px, fw, y, px);
}

/// Copies the `fw` × `fh` block at column `x0`, row 0 out of `sheet`.
fn copy_block(sheet: &RgbaSheet, x0: u32, fw: u32, fh: u32) -> (res: Vec<u8>)
    requires
        sheet.wf(),
        x0 + fw <= sheet.width,
        fh <= sheet.height,
    ensures
        res@ == block_bytes(sheet.width as int, sheet.pixels@, x0 as int, fw as int, fh as int),
{
    let ghost target = block_bytes(sheet.width as int, sheet.pixels@, x0 as int, fw as int, fh as int);
    let width = sheet.width;
    let plen = sheet.pixels.len();
    let mut rgba: Vec<u8> = Vec::new();
    let mut y: u32 = 0;
    while y < fh
        invariant
            sheet.wf(),
            plen == sheet.pixels@.len(),
            width == sheet.width,
            x0 + fw <= width,
            fh <= sheet.height,
            y <= fh,
            target == block_bytes(width as int, sheet.pixels@, x0 as int, fw as int, fh as int),
            rgba@.len() == y * fw * 4,
            forall|k: int| 0 <= k < rgba@.len() ==> rgba@[k] == target[k],
        decreases fh - y,
    {
        let mut px: u32 = 0;
        while px < fw
            invariant
                sheet.wf(),
                plen == sheet.pixels@.len(),
                width == sheet.width,
                x0 + fw <= width,
                fh <= sheet.height,
                y < fh,
                px <= fw,
                target == block_bytes(width as int, sheet.pixels@, x0 as int, fw as int, fh as int),
                rgba@.len() == (y * fw + px) * 4,
                forall|k: int| 0 <= k < rgba@.len() ==> rgba@[k] == target[k],
            decreases fw - px,
        {
            assert((y * width + x0 + px) * 4 + 4 <= width * sheet.height * 4) by (nonlinear_arith)
                requires
                    y < fh,
                    fh <= sheet.height,
                    x0 + px < width;
            assert((y * fw + px) * 4 + 4 <= fw * fh * 4) by (nonlinear_arith)
                requires
                    y < fh,
                    px < fw;
            let base: usize = ((y as usize) * (width as usize) + (x0 as usize) + (px as usize)) * 4;
            let ghost before = rgba@;
            rgba.push(sheet.pixels[base]);
            rgba.push(sheet.pixels[base + 1]);
            rgba.push(sheet.pixels[base + 2]);
            rgba.push(sheet.pixels[base + 3]);
            proof {
                assert forall|k: int| 0 <= k < rgba@.len() implies rgba@[k] == target[k] by {
                    if k >= before.len() {
                        let c = k - before.len();
                        lemma_block_position(y as int, px as int, c, fw as int);
                    }
                }
                assert((y * fw + px + 1) * 4 == (y * fw + px) * 4 + 4) by (nonlinear_arith);
            }
            px = px + 1;
        }
        assert((y + 1) * fw * 4 == (y * fw + fw) * 4) by (nonlinear_arith);
        y = y + 1;
    }
    assert(fh * fw * 4 == fw * fh * 4) by (nonlinear_arith);
    assert(rgba@ =~= target);
    rgba
}

/// Cuts `frames` frames of `frame_width` × `frame_height` pixels, laid side
/// by side from the left edge, out of a decoded sheet. Fails when the frames
/// side by side are wider than the sheet.
pub fn slice_sprite_sheet(sheet: &RgbaSheet, frames: usize, frame_width: u32, frame_height: u32) -> (res:
    Result<Vec<Frame>, String>)
    requires
        sheet.wf(),
        !unsliceable(sheet.width as int, sheet.height as int, frames as int, frame_width as int, frame_height as int),
    ensures
        match res {
            Ok(v) => {
                &&& frames * frame_width <= sheet.width
                &&& v@.len() == frames
                &&& forall|i: int| #![trigger v@[i]] 0 <= i < frames ==> {
                    &&& v@[i].width == frame_width
                    &&& v@[i].height == frame_height
                    &&& v@[i].rgba@ == block_bytes(
                        sheet.width as int,
                        sheet.pixels@,
                        i * frame_width,
                        frame_width as int,
                        frame_height as int,
                    )
                }
            },
            Err(e) => {
                &&& frames * frame_width > sheet.width
                &&& e@ == "Sprite sheet image too small for declared frame count"@
            },
        },
{
    let mut buffers: Vec<Frame> = Vec::new();
    let mut i: usize = 0;
    while i < frames
        invariant
            sheet.wf(),
            !unsliceable(sheet.width as int, sheet.height as int, frames as int, frame_width as int, frame_height as int),
            i <= frames,
            i * frame_width <= sheet.width,
            buffers@.len() == i,
            forall|j: int| #![trigger buffers@[j]] 0 <= j < i ==> {
                &&& buffers@[j].width == frame_width
                &&& buffers@[j].height == frame_height
                &&& buffers@[j].rgba@ == block_bytes(
                    sheet.width as int,
                    sheet.pixels@,
                    j * frame_width,
                    frame_width as int,
                    frame_height as int,
                )
            },
        decreases frames - i,
    {
        let x: u64 = (i as u64) * (frame_width as u64);
        if x + (frame_width as u64) > (sheet.width as u64) {
            proof {
                assert(frames * frame_width >= (i + 1) * frame_width) by (nonlinear_arith)
                    requires i < frames;
                assert((i + 1) * frame_width == i * frame_width + frame_width) by (nonlinear_arith);
            }
            return Err(String::from_str("Sprite sheet image too small for declared frame count"));
        }
        proof {
            if i == 0 {
                assert(frame_height <= sheet.height);
            }
        }
        let rgba = copy_block(sheet, x as u32, frame_width, frame_height);
        buffers.push(Frame { width: frame_width, height: frame_height, rgba });
        proof {
            assert((i + 1) * frame_width == i * frame_width + frame_width) by (nonlinear_arith);
        }
        i = i + 1;
    }
    Ok(buffers)
}

/// Whether `unsliceable` holds, decided in closed form: beyond the first
/// frame, only the last frame that starts on the sheet can reach past
/// `u32::MAX`.
fn is_unsliceable(width: u32, height: u32, frames: usize, fw: u32, fh: u32) -> (res: bool)
    ensures
        res == unsliceable(width as int, height as int, frames as int, fw as int, fh as int),
{
    if frames == 0 || fw > width {
        return false;
    }
    if fh > height {
        return true;
    }
    assert((fw as int) * (fh as int) <= 0xffff_ffff * 0xffff_ffff) by (nonlinear_arith)
        requires fw <= 0xffff_ffff, fh <= 0xffff_ffff;
    if (fw as u128) * (fh as u128) * 4 > (u32::MAX as u128) {
        return true;
    }
    if fw == 0 {
        proof {
            assert forall|i: int| 1 <= i < frames implies !#[trigger] edge_overflows(width as int, i, fw as int) by {
                assert((i + 1) * 0 == 0);
            }
        }
        return false;
    }
    let q: u32 = width / fw;
    let ghost w = width as int;
    let ghost f = fw as int;
    proof {
        lemma_fundamental_div_mod(w, f);
        assert(q * f <= w < (q + 1) * f) by (nonlinear_arith)
            requires w == f * (w / f) + w % f, 0 <= w % f < f, q == w / f;
        assert(q >= 1) by (nonlinear_arith)
            requires q * f <= w, w < (q + 1) * f, f <= w, f > 0;
    }
    assert((q + 1) * f <= 0x1_0000_0000 * 0xffff_ffff) by (nonlinear_arith)
        requires q <= 0xffff_ffff, f <= 0xffff_ffff, f >= 0;
    let res = (q as u64) < (frames as u64) && ((q as u64) + 1) * (fw as u64) > (u32::MAX as u64);
    proof {
        if res {
            assert(edge_overflows(w, q as int, f));
        } else {
            assert forall|i: int| 1 <= i < frames implies !#[trigger] edge_overflows(w, i, f) by {
                if edge_overflows(w, i, f) {
                    if i > q {
                        assert(i * f >= (q + 1) * f) by (nonlinear_arith)
                            requires i >= q + 1, f > 0;
                    } else if i < q {
                        assert((i + 1) * f <= q * f) by (nonlinear_arith)
                            requires i + 1 <= q, f > 0;
                    }
                }
            }
        }
    }
    res
}

/// Decodes a sprite sheet file and cuts it into `frames` frames of
/// `frame_width` × `frame_height` pixels laid side by side.
pub fn load_sprite_sheet(bytes: &[u8], frames: usize, frame_width: u32, frame_height: u32) -> (res: Result<
    Vec<Frame>,
    String,
>)
    ensures
        res is Ok <==> sprite_sheet_outcome(bytes@, frames as int, frame_width, frame_height) is Ok,
        res matches Err(e) ==> sprite_sheet_outcome(bytes@, frames as int, frame_width, frame_height)
            == Err::<Seq<Seq<u8>>, Seq<char>>(e@),
        res matches Ok(v) ==> {
            let fs = sprite_sheet_outcome(bytes@, frames as int, frame_width, frame_height)->Ok_0;
            &&& v@.len() == fs.len()
            &&& forall|i: int| #![trigger v@[i]] 0 <= i < v@.len() ==> {
                &&& v@[i].width == frame_width
                &&& v@[i].height == frame_height
                &&& v@[i].rgba@ == fs[i]
            }
        },
{
    let sheet = match decode_rgba(bytes) {
        Ok(s) => s,
        Err(e) => return Err(e),
    };
    if is_unsliceable(sheet.width, sheet.height, frames, frame_width, frame_height) {
        return Err(String::from_str("Sprite sheet frames do not fit the image"));
    }
    slice_sprite_sheet(&sheet, frames, frame_width, frame_height)
}

} // verus!
