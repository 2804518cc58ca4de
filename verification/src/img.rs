use vstd::prelude::*;
use vstd::arithmetic::div_mod::lemma_div_by_multiple;
use vstd::arithmetic::div_mod::lemma_fundamental_div_mod_converse;
use vstd::arithmetic::div_mod::lemma_div_is_ordered;
use vstd::arithmetic::mul::lemma_mul_inequality;
use vstd::arithmetic::mul::lemma_mul_upper_bound;
use crate::color::Color;
use crate::color::spec_rgb;

verus! {

/// An owned RGBA pixel buffer: 4 bytes per pixel, rows top to bottom, the
/// pixel at `(x, y)` starting at byte `4 * (y * width + x)`.
pub struct Img {
    /// Width in pixels.
    pub width: u32,
    /// Height in pixels.
    pub height: u32,
    /// The raw channel bytes, `[r, g, b, a]` per pixel.
    pub pixels: Vec<u8>,
}

impl Img {
    /// A buffer is well formed when it holds exactly 4 bytes per pixel.
    pub open spec fn wf(self) -> bool {
        self.pixels@.len() == 4 * self.width * self.height
    }

    /// Builds a blank, fully transparent buffer of the given dimensions.
    pub fn new(width: u32, height: u32) -> (r: Img)
        requires
            width <= 4096,
            height <= 4096,
        ensures
            r.wf(),
            r.width == width,
            r.height == height,
            r.pixels@.len() == 4 * width * height,
            forall|i: int| 0 <= i < r.pixels@.len() ==> r.pixels@[i] == 0u8,
    {
        proof {
            lemma_mul_upper_bound(4 * (width as int), 16384, height as int, 4096);
        }
        let n: usize = 4 * (width as usize) * (height as usize);
        let pixels: Vec<u8> = vec![0u8; n];
        Img { width, height, pixels }
    }
}

/// One tinted channel value: the original scaled by `c / 255` and truncated,
/// `floor(orig * c / 255)`.
pub open spec fn spec_tint_channel(orig: u8, c: u8) -> u8 {
    ((orig as nat) * (c as nat) / 255) as u8
}

/// A whole buffer tinted with the channel triple `rgb`: red, green and blue
/// bytes are scaled by the matching channel, alpha bytes are untouched.
pub open spec fn spec_tinted(pixels: Seq<u8>, rgb: (u8, u8, u8)) -> Seq<u8> {
    Seq::new(
        pixels.len(),
        |i: int|
            if i % 4 == 0 {
                spec_tint_channel(pixels[i], rgb.0)
            } else if i % 4 == 1 {
                spec_tint_channel(pixels[i], rgb.1)
            } else if i % 4 == 2 {
                spec_tint_channel(pixels[i], rgb.2)
            } else {
                pixels[i]
            },
    )
}

/// A tinted channel stays a byte: the scaled product never exceeds 255.
pub proof fn lemma_tint_channel_bound(orig: u8, c: u8)
    ensures
        (orig as nat) * (c as nat) / 255 <= 255,
{
    lemma_mul_upper_bound(orig as int, 255, c as int, 255);
    lemma_div_is_ordered((orig as int) * (c as int), 65025int, 255);
}

/// Tinting with channel value 255 is the identity on a channel:
/// `floor(orig * 255 / 255) == orig`.
pub proof fn lemma_tint_white_identity(orig: u8)
    ensures
        spec_tint_channel(orig, 255) == orig,
{
    lemma_div_by_multiple(orig as int, 255);
}

/// Tinting a whole buffer with pure white `(255, 255, 255)` changes nothing.
pub proof fn lemma_tint_white_buffer(pixels: Seq<u8>)
    ensures
        spec_tinted(pixels, (255u8, 255u8, 255u8)) == pixels,
{
    assert forall|i: int| 0 <= i < pixels.len() implies spec_tinted(
        pixels,
        (255u8, 255u8, 255u8),
    )[i] == pixels[i] by {
        lemma_tint_white_identity(pixels[i]);
    }
    assert(spec_tinted(pixels, (255u8, 255u8, 255u8)) =~= pixels);
}

/// Tints every pixel of a buffer with a color: each of the red, green and
/// blue channels is multiplied by the matching channel of the color's RGB
/// triple and divided by 255, truncating; alpha is untouched.
pub fn tint_image(data: Img, color: &Color) -> (r: Img)
    ensures
        r.width == data.width,
        r.height == data.height,
        r.pixels@ == spec_tinted(data.pixels@, spec_rgb(*color)),
        data.wf() ==> r.wf(),
{
    let (red, green, blue) = color.rgb();
    let mut out: Vec<u8> = Vec::new();
    let n = data.pixels.len();
    let mut i: usize = 0;
    while i < n
        invariant
            0 <= i <= n,
            n == data.pixels@.len(),
            (red, green, blue) == spec_rgb(*color),
            out@.len() == i,
            forall|j: int|
                0 <= j < i ==> out@[j] == spec_tinted(data.pixels@, spec_rgb(*color))[j],
        decreases n - i,
    {
        let p = data.pixels[i];
        let channel: u8 = match i % 4 {
            0 => red,
            1 => green,
            2 => blue,
            _ => 255,
        };
        let v: u8 = if i % 4 == 3 {
            p
        } else {
            proof {
                lemma_tint_channel_bound(p, channel);
            }
            ((p as u32) * (channel as u32) / 255) as u8
        };
        out.push(v);
        i = i + 1;
    }
    proof {
        assert(out@ =~= spec_tinted(data.pixels@, spec_rgb(*color)));
    }
    Img { width: data.width, height: data.height, pixels: out }
}

/// The width of the visible front face cut from a raw texture: 20 columns
/// starting at column 1, clipped to what the texture has.
pub open spec fn spec_crop_w(w: u32) -> u32 {
    if w <= 1 {
        0
    } else if w - 1 < 20 {
        (w - 1) as u32
    } else {
        20
    }
}

/// The height of the visible front face: 40 rows starting at row 1, clipped.
pub open spec fn spec_crop_h(h: u32) -> u32 {
    if h <= 1 {
        0
    } else if h - 1 < 40 {
        (h - 1) as u32
    } else {
        40
    }
}

/// The byte offset of pixel `(x, y)` in a buffer `w` pixels wide.
pub open spec fn spec_px(w: nat, x: nat, y: nat) -> nat {
    4 * (y * w + x)
}

/// A pixel inside the image lies inside the buffer, with room for its 4
/// channel bytes.
pub proof fn lemma_px_bound(w: nat, h: nat, x: nat, y: nat)
    requires
        x < w,
        y < h,
    ensures
        spec_px(w, x, y) + 3 < 4 * w * h,
        y * w + x < w * h,
{
    lemma_mul_inequality(y as int, (h - 1) as int, w as int);
    assert((h - 1) * w == h * w - w) by (nonlinear_arith);
    assert(4 * (y * w + x) + 3 < 4 * (w * h)) by (nonlinear_arith)
        requires
            y * w + x < w * h,
    ;
    assert(4 * (w * h) == 4 * w * h) by (nonlinear_arith);
}

/// The pixel bytes of the cropped front face of a `width` by `height`
/// buffer: byte `k` of the crop, at pixel `(x, y) = ((k / 4) % w, (k / 4) / w)`
/// of a crop `w` pixels wide, is the matching channel byte of source pixel
/// `(x + 1, y + 1)`.
pub open spec fn spec_cropped_pixels(width: u32, height: u32, pixels: Seq<u8>) -> Seq<u8> {
    let w = spec_crop_w(width) as int;
    Seq::new(
        (4 * spec_crop_w(width) * spec_crop_h(height)) as nat,
        |k: int|
            pixels[spec_px(
                width as nat,
                ((k / 4) % w + 1) as nat,
                ((k / 4) / w + 1) as nat,
            ) + (k % 4)],
    )
}

/// How a flat byte index decomposes into pixel coordinates and a channel.
proof fn lemma_crop_index(w: nat, x: nat, y: nat, c: nat)
    requires
        w > 0,
        x < w,
        c < 4,
    ensures
        ((spec_px(w, x, y) + c) as int) / 4 == (y * w + x) as int,
        ((spec_px(w, x, y) + c) as int) % 4 == c as int,
        ((y * w + x) as int) % (w as int) == x as int,
        ((y * w + x) as int) / (w as int) == y as int,
{
    lemma_fundamental_div_mod_converse(
        (spec_px(w, x, y) + c) as int,
        4,
        ((y * w + x) as int),
        c as int,
    );
    lemma_fundamental_div_mod_converse((y * w + x) as int, w as int, y as int, x as int);
}

/// The cropped front face of a raw texture: the 20x40 region at offset
/// `(1, 1)`, clipped to the texture's own extent. Pixel `(x, y)` of the
/// result is pixel `(x + 1, y + 1)` of the source.
pub fn crop_pattern(pattern: &Img) -> (r: Img)
    requires
        pattern.wf(),
    ensures
        r.wf(),
        r.width == spec_crop_w(pattern.width),
        r.height == spec_crop_h(pattern.height),
        r.pixels@ == spec_cropped_pixels(pattern.width, pattern.height, pattern.pixels@),
{
    let w_in = pattern.width;
    let h_in = pattern.height;
    let plen = pattern.pixels.len();
    let w: u32 = if w_in <= 1 {
        0
    } else if w_in - 1 < 20 {
        w_in - 1
    } else {
        20
    };
    let h: u32 = if h_in <= 1 {
        0
    } else if h_in - 1 < 40 {
        h_in - 1
    } else {
        40
    };
    assert(w == spec_crop_w(w_in) && h == spec_crop_h(h_in));
    let ghost target = spec_cropped_pixels(pattern.width, pattern.height, pattern.pixels@);
    proof {
        assert(target.len() == 4 * (w as nat) * (h as nat));
    }
    let mut out: Vec<u8> = Vec::new();
    let mut y: u32 = 0;
    while y < h
        invariant
            0 <= y <= h,
            w == spec_crop_w(w_in),
            h == spec_crop_h(h_in),
            w <= 20,
            h <= 40,
            w_in == pattern.width,
            h_in == pattern.height,
            pattern.wf(),
            plen == pattern.pixels@.len(),
            w > 0 ==> w < w_in,
            h > 0 ==> h < h_in,
            target == spec_cropped_pixels(pattern.width, pattern.height, pattern.pixels@),
            target.len() == 4 * (w as nat) * (h as nat),
            out@.len() == spec_px(w as nat, 0, y as nat),
            forall|k: int| 0 <= k < out@.len() ==> out@[k] == target[k],
        decreases h - y,
    {
        let mut x: u32 = 0;
        proof {
            assert(spec_px(w as nat, 0, y as nat) == spec_px(w as nat, 0 as nat, y as nat));
        }
        while x < w
            invariant
                0 <= x <= w,
                0 <= y < h,
                w == spec_crop_w(w_in),
                h == spec_crop_h(h_in),
                w <= 20,
                h <= 40,
                w_in == pattern.width,
                h_in == pattern.height,
                pattern.wf(),
                plen == pattern.pixels@.len(),
                w > 0 ==> w < w_in,
                h > 0 ==> h < h_in,
                target == spec_cropped_pixels(pattern.width, pattern.height, pattern.pixels@),
                target.len() == 4 * (w as nat) * (h as nat),
                out@.len() == spec_px(w as nat, x as nat, y as nat),
                forall|k: int| 0 <= k < out@.len() ==> out@[k] == target[k],
            decreases w - x,
        {
            proof {
                lemma_px_bound(w_in as nat, h_in as nat, x as nat + 1, y as nat + 1);
                lemma_px_bound(w as nat, h as nat, x as nat, y as nat);
            }
            let src: usize = 4 * (((y as usize) + 1) * (w_in as usize) + ((x as usize) + 1));
            assert(src == spec_px(w_in as nat, x as nat + 1, y as nat + 1));
            let ghost k0 = spec_px(w as nat, x as nat, y as nat) as int;
            proof {
                assert forall|c: nat| c < 4 implies #[trigger] target[k0 + c]
                    == pattern.pixels@[src + c] by {
                    lemma_crop_index(w as nat, x as nat, y as nat, c);
                }
            }
            let c0 = pattern.pixels[src];
            let c1 = pattern.pixels[src + 1];
            let c2 = pattern.pixels[src + 2];
            let c3 = pattern.pixels[src + 3];
            out.push(c0);
            out.push(c1);
            out.push(c2);
            out.push(c3);
            proof {
                assert(target[k0 + 0] == c0 && target[k0 + 1] == c1 && target[k0 + 2] == c2
                    && target[k0 + 3] == c3);
                assert(spec_px(w as nat, x as nat + 1, y as nat) == k0 + 4);
            }
            x = x + 1;
        }
        proof {
            assert((y as nat + 1) * (w as nat) == (y as nat) * (w as nat) + (w as nat))
                by (nonlinear_arith);
            assert(spec_px(w as nat, 0, y as nat + 1) == spec_px(w as nat, w as nat, y as nat));
        }
        y = y + 1;
    }
    proof {
        assert(4 * (w as nat) * (h as nat) == 4 * ((h as nat) * (w as nat) + 0))
            by (nonlinear_arith);
        assert(out@.len() == target.len());
        assert(out@ =~= target);
    }
    Img { width: w, height: h, pixels: out }
}

#[verifier::external_type_specification]
#[verifier::external_body]
pub struct ExImageError(image::ImageError);

/// The RGBA image that a byte string decodes to, if any: its width, height
/// and channel bytes. Decoding is a function of the bytes alone.
pub uninterp spec fn decoded_rgba(bytes: Seq<u8>) -> Option<(u32, u32, Seq<u8>)>;

/// Relies on `image::load_from_memory` and `DynamicImage::to_rgba8`: whether
/// the bytes decode, and the pixels they decode to, depend on the bytes
/// alone, and the returned buffer holds exactly 4 bytes per pixel.
#[verifier::external_body]
pub fn decode_rgba(bytes: &Vec<u8>) -> (r: Result<Img, image::ImageError>)
    ensures
        (r is Ok) == (decoded_rgba(bytes@) is Some),
        r matches Ok(img) ==> (decoded_rgba(bytes@) matches Some(t) && img.width == t.0
            && img.height == t.1 && img.pixels@ == t.2 && img.wf()),
{
    let decoded = image::load_from_memory(bytes.as_slice())?;
    let buf = decoded.to_rgba8();
    Ok(Img { width: buf.width(), height: buf.height(), pixels: buf.into_raw() })
}

/// The pixels after alpha-compositing the `src` buffer onto the `dest`
/// buffer of the same dimensions at offset `(0, 0)`: a function of both
/// buffers and the shared dimensions alone.
pub uninterp spec fn overlay_of(
    width: u32,
    height: u32,
    dest: Seq<u8>,
    src: Seq<u8>,
) -> Seq<u8>;

/// Relies on `image::imageops::overlay` at offset `(0, 0)` on two buffers of
/// equal dimensions: it blends every `src` pixel onto the matching `dest`
/// pixel in place, leaving the dimensions unchanged; a fully transparent
/// `src` pixel leaves the `dest` pixel as it was, and a fully opaque one
/// replaces it.
#[verifier::external_body]
pub fn overlay_images(dest: &mut Img, src: &Img)
    requires
        old(dest).wf(),
        src.wf(),
        old(dest).width == src.width,
        old(dest).height == src.height,
    ensures
        final(dest).width == old(dest).width,
        final(dest).height == old(dest).height,
        final(dest).pixels@.len() == old(dest).pixels@.len(),
        final(dest).pixels@ == overlay_of(src.width, src.height, old(dest).pixels@, src.pixels@),
        forall|k: int, c: int|
            0 <= k < (src.width as int) * (src.height as int) && 0 <= c < 4 && src.pixels@[4 * k
                + 3] == 0 ==> #[trigger] final(dest).pixels@[4 * k + c] == old(dest).pixels@[4 * k
                + c],
        forall|k: int, c: int|
            0 <= k < (src.width as int) * (src.height as int) && 0 <= c < 4 && src.pixels@[4 * k
                + 3] == 255 ==> #[trigger] final(dest).pixels@[4 * k + c] == src.pixels@[4 * k + c],
{
    let pixels = core::mem::take(&mut dest.pixels);
    let mut bottom = image::ImageBuffer::<image::Rgba<u8>, Vec<u8>>::from_raw(
        dest.width,
        dest.height,
        pixels,
    ).unwrap();
    let top = image::ImageBuffer::<image::Rgba<u8>, Vec<u8>>::from_raw(
        src.width,
        src.height,
        src.pixels.clone(),
    ).unwrap();
    image::imageops::overlay(&mut bottom, &top, 0, 0);
    dest.pixels = bottom.into_raw();
}

} // verus!
