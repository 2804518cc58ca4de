use vstd::prelude::*;
use crate::color::Color;
use crate::color::spec_rgb;
use crate::error::Error;
use crate::img::Img;
use crate::img::crop_pattern;
use crate::img::decode_rgba;
use crate::img::decoded_rgba;
use crate::img::overlay_images;
use crate::img::overlay_of;
use crate::img::spec_crop_h;
use crate::img::spec_crop_w;
use crate::img::spec_cropped_pixels;
use crate::img::spec_tinted;
use crate::img::tint_image;
use crate::rng::SeededRng;
use crate::rng::chacha_draw;

verus! {

broadcast use vstd::seq::group_seq_axioms;

/// Banner canvas width in pixels.
pub const BANNER_X: u32 = 20;

/// Banner canvas height in pixels.
pub const BANNER_Y: u32 = 40;

/// A fully transparent 20x40 canvas.
pub open spec fn spec_blank_canvas() -> Seq<u8> {
    Seq::new(3200, |i: int| 0u8)
}

/// The canvas after a base texture is tinted with the base color and
/// composited onto a blank 20x40 canvas.
pub open spec fn spec_base_canvas(base: Img, color: Color) -> Seq<u8> {
    overlay_of(20, 40, spec_blank_canvas(), spec_tinted(base.pixels@, spec_rgb(color)))
}

/// The pixels of one resolved layer: the library texture at `pid`, cropped
/// to its front face and tinted with the layer's color.
pub open spec fn spec_layer_pixels(lib: Seq<(String, Img)>, pid: usize, color: Color) -> Seq<u8> {
    let t = lib[pid as int].1;
    spec_tinted(spec_cropped_pixels(t.width, t.height, t.pixels@), spec_rgb(color))
}

/// The canvas after the first `k` layers are composited, in list order, on
/// top of `canvas`: each layer is cropped, tinted, and alpha-composited.
pub open spec fn spec_composite(
    canvas: Seq<u8>,
    layers: Seq<(usize, Color)>,
    lib: Seq<(String, Img)>,
    k: nat,
) -> Seq<u8>
    decreases k,
{
    if k == 0 {
        canvas
    } else {
        overlay_of(
            20,
            40,
            spec_composite(canvas, layers, lib, (k - 1) as nat),
            spec_layer_pixels(lib, layers[k - 1].0, layers[k - 1].1),
        )
    }
}

/// Whether the library texture at `pid` still has the full 20x40 front face
/// after cropping. A smaller source texture crops to a smaller face and is
/// rejected when used as a layer.
pub open spec fn spec_layer_fits(lib: Seq<(String, Img)>, pid: usize) -> bool {
    spec_crop_w(lib[pid as int].1.width) == 20 && spec_crop_h(lib[pid as int].1.height) == 40
}

/// A banner under construction: a 20x40 canvas holding the tinted base and
/// every pattern composited so far.
pub struct Banner {
    /// The canvas: the tinted base plus every pattern composited so far.
    pub image: Img,
}

/// A pattern texture cropped to the banner's 20x40 visible front face.
pub struct Pattern {
    /// The cropped 20x40 front-face pixels.
    pub image: Img,
}

impl Pattern {
    /// Crops a raw, full-sized pattern texture down to its front face.
    pub fn new(raw: Img) -> (r: Pattern)
        requires
            raw.wf(),
        ensures
            r.image.wf(),
            r.image.width == spec_crop_w(raw.width),
            r.image.height == spec_crop_h(raw.height),
            r.image.pixels@ == spec_cropped_pixels(raw.width, raw.height, raw.pixels@),
    {
        Pattern { image: crop_pattern(&raw) }
    }

    /// A reference to the cropped pixels.
    pub fn img(&self) -> (r: &Img)
        ensures
            r == self.image,
    {
        &self.image
    }

    /// The cropped pixels, by value.
    pub fn img_owned(self) -> (r: Img)
        ensures
            r == self.image,
    {
        self.image
    }
}

impl Banner {
    /// The canvas held so far.
    pub open spec fn spec_img(self) -> Img {
        self.image
    }

    /// A banner canvas is always a well-formed 20x40 buffer.
    pub open spec fn wf(self) -> bool {
        self.image.wf() && self.image.width == 20 && self.image.height == 40
    }

    /// Starts a banner: tints the 20x40 base texture with the base color and
    /// composites it onto a fresh blank canvas.
    ///
    /// Fails with [`Error::DimensionMismatch`] when the base texture is not
    /// exactly 20x40.
    pub fn new(base: Img, color: Color) -> (r: Result<Banner, Error>)
        requires
            base.wf(),
        ensures
            (r is Ok <==> (base.width == 20 && base.height == 40)),
            r matches Ok(b) ==> b.wf() && b.spec_img().pixels@ == spec_base_canvas(base, color),
            r is Err ==> r == Result::<Banner, Error>::Err(Error::DimensionMismatch),
    {
        if base.width != BANNER_X || base.height != BANNER_Y {
            return Err(Error::DimensionMismatch);
        }
        let mut canvas = Img::new(BANNER_X, BANNER_Y);
        let tinted = tint_image(base, &color);
        proof {
            assert(4 * canvas.width * canvas.height == 3200) by (nonlinear_arith)
                requires
                    canvas.width == 20 && canvas.height == 40,
            ;
            assert(canvas.pixels@ =~= spec_blank_canvas());
        }
        overlay_images(&mut canvas, &tinted);
        Ok(Banner { image: canvas })
    }

    /// Composites one pattern onto the banner: the pattern is tinted with
    /// the given color and alpha-composited on top of the canvas.
    ///
    /// Fails with [`Error::DimensionMismatch`], leaving the canvas exactly
    /// as it was, when the cropped pattern is not exactly 20x40.
    pub fn add_pattern(&mut self, pattern: Pattern, color: &Color) -> (r: Result<(), Error>)
        requires
            old(self).wf(),
            pattern.image.wf(),
        ensures
            final(self).wf(),
            (r is Ok <==> (pattern.image.width == 20 && pattern.image.height == 40)),
            r is Err ==> r == Result::<(), Error>::Err(Error::DimensionMismatch) && *final(self)
                == *old(self),
            r is Ok ==> final(self).spec_img().pixels@ == overlay_of(
                20,
                40,
                old(self).spec_img().pixels@,
                spec_tinted(pattern.image.pixels@, spec_rgb(*color)),
            ),
    {
        if pattern.image.width != BANNER_X || pattern.image.height != BANNER_Y {
            return Err(Error::DimensionMismatch);
        }
        let tinted = tint_image(pattern.img_owned(), color);
        overlay_images(&mut self.image, &tinted);
        Ok(())
    }

    /// The finished canvas, by value.
    pub fn img_owned(self) -> (r: Img)
        ensures
            r == self.spec_img(),
    {
        self.image
    }

    /// Decodes the banner base texture from its image bytes and crops it to
    /// the 20x40 visible front face, the canvas template for every banner.
    ///
    /// Fails with [`Error::DecodeFailure`] when the bytes cannot be decoded.
    pub fn load_base(bytes: &Vec<u8>) -> (r: Result<Img, Error>)
        ensures
            (r is Ok <==> decoded_rgba(bytes@) is Some),
            r matches Ok(img) ==> (decoded_rgba(bytes@) matches Some(t) && img.wf() && img.width
                == spec_crop_w(t.0) && img.height == spec_crop_h(t.1) && img.pixels@
                == spec_cropped_pixels(t.0, t.1, t.2)),
            r is Err ==> r == Result::<Img, Error>::Err(Error::DecodeFailure),
    {
        let decoded = match decode_rgba(bytes) {
            Ok(img) => img,
            Err(_) => {
                return Err(Error::DecodeFailure);
            },
        };
        let cropped = crop_pattern(&decoded);
        Ok(cropped)
    }

    /// Renders a full banner from a generated pattern list.
    ///
    /// The base color, where not supplied, is drawn from the stream after
    /// all layer draws, keeping the layer draws identical whether or not the
    /// base color is overridden. Each layer's texture is looked up in the
    /// library by index, cropped, tinted and composited in list order, later
    /// layers on top.
    ///
    /// Fails with [`Error::DimensionMismatch`] when the base is not 20x40 or
    /// some layer's cropped texture is not 20x40.
    pub fn from_pattern_list(
        rng: &mut SeededRng,
        base: Img,
        base_color: Option<Color>,
        patterns: Vec<(usize, Color)>,
        pattern_ref: &Vec<(String, Img)>,
    ) -> (r: Result<Img, Error>)
        requires
            base.wf(),
            forall|i: int|
                0 <= i < patterns@.len() ==> (#[trigger] patterns@[i].0 as int)
                    < pattern_ref@.len(),
            forall|i: int| 0 <= i < pattern_ref@.len() ==> (#[trigger] pattern_ref@[i].1).wf(),
        ensures
            ({
                let bc = match base_color {
                    Some(c) => c,
                    None => Color::spec_from_id(
                        chacha_draw(old(rng).seed(), old(rng).history(), 16) as u8,
                    ),
                };
                let ok_dims = base.width == 20 && base.height == 40 && (forall|i: int|
                    0 <= i < patterns@.len() ==> spec_layer_fits(
                        pattern_ref@,
                        #[trigger] patterns@[i].0,
                    ));
                &&& final(rng).seed() == old(rng).seed()
                &&& final(rng).history() == (if base_color is None {
                    old(rng).history().push(16u64)
                } else {
                    old(rng).history()
                })
                &&& (r is Ok <==> ok_dims)
                &&& (r matches Ok(img) ==> img.wf() && img.width == 20 && img.height == 40
                    && img.pixels@ == spec_composite(
                    spec_base_canvas(base, bc),
                    patterns@,
                    pattern_ref@,
                    patterns@.len(),
                ))
                &&& (r is Err ==> r == Result::<Img, Error>::Err(Error::DimensionMismatch))
            }),
    {
        let resolved: Color = match base_color {
            Some(color) => color,
            None => Color::random(rng),
        };
        let ghost bc_spec = (match base_color {
            Some(c) => c,
            None => Color::spec_from_id(
                chacha_draw(old(rng).seed(), old(rng).history(), 16) as u8,
            ),
        });
        assert(resolved == bc_spec);
        let mut banner = match Banner::new(base, resolved) {
            Ok(b) => b,
            Err(e) => {
                return Err(e);
            },
        };
        let ghost canvas0 = spec_base_canvas(base, bc_spec);
        assert(banner.spec_img().pixels@ == spec_composite(canvas0, patterns@, pattern_ref@, 0));
        let n = patterns.len();
        let mut i: usize = 0;
        while i < n
            invariant
                0 <= i <= n,
                n == patterns@.len(),
                banner.wf(),
                forall|k: int|
                    0 <= k < patterns@.len() ==> (#[trigger] patterns@[k].0 as int)
                        < pattern_ref@.len(),
                forall|k: int| 0 <= k < pattern_ref@.len() ==> (#[trigger] pattern_ref@[k].1).wf(),
                canvas0 == spec_base_canvas(base, bc_spec),
                rng.seed() == old(rng).seed(),
                rng.history() == (if base_color is None {
                    old(rng).history().push(16u64)
                } else {
                    old(rng).history()
                }),
                banner.spec_img().pixels@ == spec_composite(canvas0, patterns@, pattern_ref@, i as nat),
                forall|k: int| 0 <= k < i ==> spec_layer_fits(pattern_ref@, #[trigger] patterns@[k].0),
            decreases n - i,
        {
            let (pattern_id, color) = (patterns[i].0, patterns[i].1);
            let raw = clone_img(&pattern_ref[pattern_id].1);
            let pattern = Pattern::new(raw);
            match banner.add_pattern(pattern, &color) {
                Ok(()) => {
                    proof {
                        assert(banner.spec_img().pixels@ == spec_composite(
                            canvas0,
                            patterns@,
                            pattern_ref@,
                            i as nat + 1,
                        ));
                    }
                },
                Err(e) => {
                    proof {
                        assert(!spec_layer_fits(pattern_ref@, patterns@[i as int].0));
                    }
                    return Err(e);
                },
            }
            i = i + 1;
        }
        Ok(banner.img_owned())
    }
}

/// A deep copy of a pixel buffer: the library texture is cloned before it is
/// tinted, so shared read-only pattern data is never mutated.
pub fn clone_img(img: &Img) -> (r: Img)
    ensures
        r.width == img.width,
        r.height == img.height,
        r.pixels@ == img.pixels@,
{
    let mut pixels: Vec<u8> = Vec::new();
    let n = img.pixels.len();
    let mut i: usize = 0;
    while i < n
        invariant
            0 <= i <= n,
            n == img.pixels@.len(),
            pixels@ == img.pixels@.take(i as int),
        decreases n - i,
    {
        pixels.push(img.pixels[i]);
        proof {
            assert(img.pixels@.take(i as int).push(img.pixels@[i as int]) =~= img.pixels@.take(
                i as int + 1,
            ));
        }
        i = i + 1;
    }
    proof {
        assert(img.pixels@.take(n as int) =~= img.pixels@);
    }
    Img { width: img.width, height: img.height, pixels }
}

} // verus!
