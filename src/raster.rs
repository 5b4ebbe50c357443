//! RGBA rasters, their mathematical view, and the pixel operations that layer edits are
//! built from: writing a patch into a rectangle, cropping, and compositing one raster over another.
use vstd::prelude::*;

verus! {

/// One pixel with eight bits per channel: red, green, blue and alpha.
#[derive(Clone, Copy, PartialEq, Eq, Structural, Debug)]
pub struct Rgba {
    pub r: u8,
    pub g: u8,
    pub b: u8,
    pub a: u8,
}

impl Rgba {
    /// Opaque black, the "nothing to erase" value of a mask.
    pub fn opaque_black() -> (p: Rgba)
        ensures
            p == (Rgba { r: 0, g: 0, b: 0, a: 255 }),
    {
        Rgba { r: 0, g: 0, b: 0, a: 255 }
    }

    /// Fully transparent black, the blank value of a brush overlay.
    pub fn transparent() -> (p: Rgba)
        ensures
            p == (Rgba { r: 0, g: 0, b: 0, a: 0 }),
    {
        Rgba { r: 0, g: 0, b: 0, a: 0 }
    }
}

/// What a raster holds: its dimensions and its pixels, row after row.
pub struct RasterView {
    pub width: nat,
    pub height: nat,
    pub pixels: Seq<Rgba>,
}

impl RasterView {
    pub open spec fn wf(self) -> bool {
        self.pixels.len() == self.width * self.height
    }

    pub open spec fn in_bounds(self, x: int, y: int) -> bool {
        0 <= x < self.width && 0 <= y < self.height
    }

    /// The pixel in column `x` of row `y`.
    pub open spec fn at(self, x: int, y: int) -> Rgba {
        self.pixels[y * self.width + x]
    }

    /// The column of the `i`-th stored pixel.
    pub open spec fn col(self, i: int) -> int {
        i % (self.width as int)
    }

    /// The row of the `i`-th stored pixel.
    pub open spec fn row(self, i: int) -> int {
        i / (self.width as int)
    }
}

pub open spec fn in_rect(x: int, y: int, x0: int, y0: int, w: int, h: int) -> bool {
    x0 <= x < x0 + w && y0 <= y < y0 + h
}

/// `canvas` with the pixel at `(x0 + dx, y0 + dy)` replaced by the pixel of `patch`
/// at `(dx, dy)`, for every `dx < w` and `dy < h`.
pub open spec fn patched(
    canvas: RasterView,
    patch: RasterView,
    x0: int,
    y0: int,
    w: int,
    h: int,
) -> RasterView {
    RasterView {
        width: canvas.width,
        height: canvas.height,
        pixels: Seq::new(
            canvas.pixels.len(),
            |i: int|
                if in_rect(canvas.col(i), canvas.row(i), x0, y0, w, h) {
                    patch.at(canvas.col(i) - x0, canvas.row(i) - y0)
                } else {
                    canvas.pixels[i]
                },
        ),
    }
}

/// The `w × h` sub-rectangle of `src` whose top-left corner is `(x0, y0)`.
pub open spec fn cropped(src: RasterView, x0: int, y0: int, w: nat, h: nat) -> RasterView {
    RasterView {
        width: w,
        height: h,
        pixels: Seq::new(w * h, |i: int| src.at(x0 + i % (w as int), y0 + i / (w as int))),
    }
}

/// A mask pixel marks its place for inpainting where any colour channel is lit.
pub open spec fn is_masked(p: Rgba) -> bool {
    p.r > 0 || p.g > 0 || p.b > 0
}

/// Pixel by pixel, `inpainted` where `mask` is marked and `original` elsewhere.
pub open spec fn selected(inpainted: RasterView, original: RasterView, mask: RasterView) -> RasterView {
    RasterView {
        width: mask.width,
        height: mask.height,
        pixels: Seq::new(
            mask.pixels.len(),
            |i: int|
                if is_masked(mask.pixels[i]) {
                    inpainted.pixels[i]
                } else {
                    original.pixels[i]
                },
        ),
    }
}

/// A `w × h` raster whose pixels all equal `p`.
pub open spec fn uniform(w: nat, h: nat, p: Rgba) -> RasterView {
    RasterView { width: w, height: h, pixels: Seq::new(w * h, |i: int| p) }
}

/// What `Rgba::blend` of the image crate computes for a partly transparent top pixel.
pub uninterp spec fn blended(bottom: Rgba, top: Rgba) -> Rgba;

/// Source-over compositing of one pixel: a transparent top pixel keeps the bottom one, an
/// opaque one replaces it, and anything in between mixes the two.
pub open spec fn blend(bottom: Rgba, top: Rgba) -> Rgba {
    if top.a == 0 {
        bottom
    } else if top.a == 255 {
        top
    } else {
        blended(bottom, top)
    }
}

/// `bottom` with `top` composited over it, the top-left corner of `top` at `(x, y)`.
pub open spec fn overlaid(bottom: RasterView, top: RasterView, x: int, y: int) -> RasterView {
    RasterView {
        width: bottom.width,
        height: bottom.height,
        pixels: Seq::new(
            bottom.pixels.len(),
            |i: int|
                if top.in_bounds(bottom.col(i) - x, bottom.row(i) - y) {
                    blend(bottom.pixels[i], top.at(bottom.col(i) - x, bottom.row(i) - y))
                } else {
                    bottom.pixels[i]
                },
        ),
    }
}

/// What `image::load_from_memory` followed by a conversion to 8-bit RGBA gives for `bytes`,
/// or `None` where the bytes are no image it can decode.
pub uninterp spec fn decoded_image(bytes: Seq<u8>) -> Option<RasterView>;

/// The position of pixel `(x, y)` in row-major order, and back.
pub proof fn lemma_index(w: int, h: int, x: int, y: int)
    requires
        0 <= x < w,
        0 <= y < h,
    ensures
        0 <= y * w + x < w * h,
        (y * w + x) % w == x,
        (y * w + x) / w == y,
{
    assert(0 <= y * w + x < w * h) by (nonlinear_arith)
        requires
            0 <= x < w,
            0 <= y < h,
    ;
    vstd::arithmetic::div_mod::lemma_fundamental_div_mod_converse(y * w + x, w, y, x);
}

/// Every stored pixel has a column and a row inside the raster.
pub proof fn lemma_position(w: int, h: int, i: int)
    requires
        0 <= w,
        0 <= h,
        0 <= i < w * h,
    ensures
        0 < w,
        0 <= i % w < w,
        0 <= i / w < h,
        i == (i / w) * w + i % w,
{
    assert(w != 0) by (nonlinear_arith)
        requires
            0 <= i < w * h,
    ;
    vstd::arithmetic::mul::lemma_mul_is_commutative(w, i / w);
    vstd::arithmetic::div_mod::lemma_fundamental_div_mod(i, w);
    vstd::arithmetic::div_mod::lemma_mod_pos_bound(i, w);
    vstd::arithmetic::div_mod::lemma_div_pos_is_pos(i, w);
    let q = i / w;
    let r = i % w;
    assert(q < h) by (nonlinear_arith)
        requires
            i == w * q + r,
            0 <= r,
            i < w * h,
            0 < w,
    ;
}

/// Two well-formed rasters of one size with the same pixel everywhere are the same.
pub proof fn lemma_same_pixels(a: RasterView, b: RasterView)
    requires
        a.wf(),
        b.wf(),
        a.width == b.width,
        a.height == b.height,
        forall|x: int, y: int| a.in_bounds(x, y) ==> #[trigger] a.at(x, y) == b.at(x, y),
    ensures
        a == b,
{
    assert forall|i: int| 0 <= i < a.pixels.len() implies a.pixels[i] == b.pixels[i] by {
        lemma_position(a.width as int, a.height as int, i);
        assert(a.at(i % (a.width as int), i / (a.width as int)) == b.at(
            i % (a.width as int),
            i / (a.width as int),
        ));
    }
    assert(a.pixels =~= b.pixels);
}

/// A pixel raster with 8-bit RGBA channels.
#[derive(Clone, Debug)]
pub struct Raster {
    width: u32,
    height: u32,
    pixels: Vec<Rgba>,
}

impl View for Raster {
    type V = RasterView;

    closed spec fn view(&self) -> RasterView {
        RasterView { width: self.width as nat, height: self.height as nat, pixels: self.pixels@ }
    }
}

impl Raster {
    pub open spec fn wf(&self) -> bool {
        self@.wf()
    }

    /// A raster from its dimensions and its pixels row after row, or `None` where the
    /// number of pixels is not `width × height`.
    pub fn new(width: u32, height: u32, pixels: Vec<Rgba>) -> (r: Option<Raster>)
        ensures
            match r {
                Some(img) => img.wf() && img@ == (RasterView {
                    width: width as nat,
                    height: height as nat,
                    pixels: pixels@,
                }),
                None => pixels@.len() != width * height,
            },
    {
        proof {
            assert(width * height <= 0xFFFF_FFFE_0000_0001) by (nonlinear_arith)
                requires
                    width <= 0xFFFF_FFFF,
                    height <= 0xFFFF_FFFF,
            ;
        }
        if pixels.len() as u64 == width as u64 * height as u64 {
            Some(Raster { width, height, pixels })
        } else {
            None
        }
    }

    /// A `width × height` raster with every pixel equal to `p`.
    pub fn filled(width: u32, height: u32, p: Rgba) -> (r: Raster)
        requires
            width * height <= usize::MAX,
        ensures
            r.wf(),
            r@ == uniform(width as nat, height as nat, p),
    {
        let n: usize = (width as u64 * height as u64) as usize;
        let mut pixels: Vec<Rgba> = Vec::with_capacity(n);
        let mut k: usize = 0;
        while k < n
            invariant
                k <= n,
                n == width * height,
                pixels@.len() == k,
                forall|i: int| 0 <= i < k ==> pixels@[i] == p,
            decreases n - k,
        {
            pixels.push(p);
            k = k + 1;
        }
        let r = Raster { width, height, pixels };
        assert(r@.pixels =~= uniform(width as nat, height as nat, p).pixels);
        r
    }

    /// The number of pixels, `width × height`.
    pub fn pixel_count(&self) -> (n: usize)
        ensures
            n == self@.pixels.len(),
    {
        self.pixels.len()
    }

    /// A copy with the same dimensions and pixels.
    pub fn duplicate(&self) -> (r: Raster)
        ensures
            r@ == self@,
    {
        let pixels = self.pixels.clone();
        assert(pixels@ =~= self.pixels@);
        Raster { width: self.width, height: self.height, pixels }
    }

    pub fn width(&self) -> (w: u32)
        ensures
            w == self@.width,
    {
        self.width
    }

    pub fn height(&self) -> (h: u32)
        ensures
            h == self@.height,
    {
        self.height
    }

    /// The pixels, row after row.
    pub fn pixels(&self) -> (p: &[Rgba])
        ensures
            p@ == self@.pixels,
    {
        self.pixels.as_slice()
    }

    pub fn get(&self, x: u32, y: u32) -> (p: Rgba)
        requires
            self.wf(),
            self@.in_bounds(x as int, y as int),
        ensures
            p == self@.at(x as int, y as int),
    {
        // The pixel count is a `usize`, so the position below cannot overflow.
        let _count = self.pixels.len();
        proof {
            lemma_index(self.width as int, self.height as int, x as int, y as int);
        }
        self.pixels[y as usize * self.width as usize + x as usize]
    }

    /// The `i`-th pixel in row-major order.
    pub fn get_index(&self, i: usize) -> (p: Rgba)
        requires
            i < self@.pixels.len(),
        ensures
            p == self@.pixels[i as int],
    {
        self.pixels[i]
    }

    /// Replaces the `i`-th pixel in row-major order.
    pub fn put_index(&mut self, i: usize, p: Rgba)
        requires
            i < old(self)@.pixels.len(),
        ensures
            final(self)@ == (RasterView { pixels: old(self)@.pixels.update(i as int, p), ..old(self)@ }),
    {
        self.pixels.set(i, p);
    }

    /// Where `mask` marks a pixel, the pixel of `inpainted`; elsewhere that of `original`.
    /// The three rasters share one size.
    pub fn select_masked(mask: &Raster, inpainted: &Raster, original: &Raster) -> (r: Raster)
        requires
            mask.wf(),
            inpainted@.width == mask@.width,
            inpainted@.height == mask@.height,
            original@.width == mask@.width,
            original@.height == mask@.height,
            inpainted.wf(),
            original.wf(),
        ensures
            r.wf(),
            r@ == selected(inpainted@, original@, mask@),
    {
        let n = mask.pixels.len();
        let mut pixels: Vec<Rgba> = Vec::with_capacity(n);
        let mut i: usize = 0;
        while i < n
            invariant
                n == mask@.pixels.len(),
                n == inpainted@.pixels.len(),
                n == original@.pixels.len(),
                i <= n,
                pixels@.len() == i,
                forall|j: int| 0 <= j < i ==> #[trigger] pixels@[j] == selected(inpainted@, original@, mask@).pixels[j],
            decreases n - i,
        {
            let m = mask.pixels[i];
            if m.r > 0 || m.g > 0 || m.b > 0 {
                pixels.push(inpainted.pixels[i]);
            } else {
                pixels.push(original.pixels[i]);
            }
            i = i + 1;
        }
        let r = Raster { width: mask.width, height: mask.height, pixels };
        assert(r@.pixels =~= selected(inpainted@, original@, mask@).pixels);
        r
    }

    /// Writes one pixel and leaves every other pixel as it was.
    pub fn put(&mut self, x: u32, y: u32, p: Rgba)
        requires
            old(self).wf(),
            old(self)@.in_bounds(x as int, y as int),
        ensures
            final(self).wf(),
            final(self)@ == (RasterView {
                pixels: old(self)@.pixels.update(y * old(self)@.width + x, p),
                ..old(self)@
            }),
    {
        // The pixel count is a `usize`, so the position below cannot overflow.
        let _count = self.pixels.len();
        proof {
            lemma_index(self.width as int, self.height as int, x as int, y as int);
        }
        let i = y as usize * self.width as usize + x as usize;
        self.pixels.set(i, p);
    }

    /// Writes the top-left `w × h` pixels of `patch` at `(x0, y0)`.
    pub fn copy_from(&mut self, patch: &Raster, x0: u32, y0: u32, w: u32, h: u32)
        requires
            old(self).wf(),
            patch.wf(),
            x0 + w <= old(self)@.width,
            y0 + h <= old(self)@.height,
            w <= patch@.width,
            h <= patch@.height,
        ensures
            final(self).wf(),
            final(self)@ == patched(old(self)@, patch@, x0 as int, y0 as int, w as int, h as int),
    {
        let ghost start = self@;
        let ghost width = self@.width as int;
        let ghost height = self@.height as int;
        let mut dy: u32 = 0;
        while dy < h
            invariant
                self.wf(),
                patch.wf(),
                dy <= h,
                self@.width == start.width,
                self@.height == start.height,
                self@.pixels.len() == start.pixels.len(),
                start.wf(),
                width == start.width,
                height == start.height,
                x0 + w <= width,
                y0 + h <= height,
                w <= patch@.width,
                h <= patch@.height,
                forall|i: int|
                    0 <= i < start.pixels.len() ==> #[trigger] self@.pixels[i] == if in_rect(
                        start.col(i),
                        start.row(i),
                        x0 as int,
                        y0 as int,
                        w as int,
                        dy as int,
                    ) {
                        patch@.at(start.col(i) - x0, start.row(i) - y0)
                    } else {
                        start.pixels[i]
                    },
            decreases h - dy,
        {
            let mut dx: u32 = 0;
            while dx < w
                invariant
                    self.wf(),
                    patch.wf(),
                    dy < h,
                    dx <= w,
                    self@.width == start.width,
                    self@.height == start.height,
                    self@.pixels.len() == start.pixels.len(),
                    start.wf(),
                    width == start.width,
                    height == start.height,
                    x0 + w <= width,
                    y0 + h <= height,
                    w <= patch@.width,
                    h <= patch@.height,
                    forall|i: int|
                        0 <= i < start.pixels.len() ==> #[trigger] self@.pixels[i] == if in_rect(
                            start.col(i),
                            start.row(i),
                            x0 as int,
                            y0 as int,
                            w as int,
                            dy as int,
                        ) || (start.row(i) == y0 + dy && x0 <= start.col(i) < x0 + dx) {
                            patch@.at(start.col(i) - x0, start.row(i) - y0)
                        } else {
                            start.pixels[i]
                        },
                decreases w - dx,
            {
                let p = patch.get(dx, dy);
                let ghost before = self@;
                proof {
                    lemma_index(width, height, (x0 + dx) as int, (y0 + dy) as int);
                }
                self.put(x0 + dx, y0 + dy, p);
                proof {
                    let k = (y0 + dy) * width + (x0 + dx);
                    assert forall|i: int| 0 <= i < start.pixels.len() implies #[trigger] self@.pixels[i]
                        == if in_rect(
                        start.col(i),
                        start.row(i),
                        x0 as int,
                        y0 as int,
                        w as int,
                        dy as int,
                    ) || (start.row(i) == y0 + dy && x0 <= start.col(i) < x0 + dx + 1) {
                        patch@.at(start.col(i) - x0, start.row(i) - y0)
                    } else {
                        start.pixels[i]
                    } by {
                        lemma_position(width, height, i);
                        if i != k {
                            assert(before.pixels[i] == self@.pixels[i]);
                        }
                    }
                }
                dx = dx + 1;
            }
            dy = dy + 1;
        }
        assert(self@.pixels =~= patched(start, patch@, x0 as int, y0 as int, w as int, h as int).pixels);
    }

    /// The `w × h` sub-rectangle whose top-left corner is `(x0, y0)`.
    pub fn crop(&self, x0: u32, y0: u32, w: u32, h: u32) -> (r: Raster)
        requires
            self.wf(),
            x0 + w <= self@.width,
            y0 + h <= self@.height,
        ensures
            r.wf(),
            r@ == cropped(self@, x0 as int, y0 as int, w as nat, h as nat),
    {
        let ghost target = cropped(self@, x0 as int, y0 as int, w as nat, h as nat);
        proof {
            assert(w * h <= self@.width * self@.height) by (nonlinear_arith)
                requires
                    x0 + w <= self@.width,
                    y0 + h <= self@.height,
            ;
        }
        let mut pixels: Vec<Rgba> = Vec::new();
        let mut dy: u32 = 0;
        while dy < h
            invariant
                self.wf(),
                dy <= h,
                x0 + w <= self@.width,
                y0 + h <= self@.height,
                target == cropped(self@, x0 as int, y0 as int, w as nat, h as nat),
                target.pixels.len() == w * h,
                pixels@.len() == dy * w,
                forall|i: int| 0 <= i < pixels@.len() ==> #[trigger] pixels@[i] == target.pixels[i],
            decreases h - dy,
        {
            let mut dx: u32 = 0;
            while dx < w
                invariant
                    self.wf(),
                    dy < h,
                    dx <= w,
                    x0 + w <= self@.width,
                    y0 + h <= self@.height,
                    target == cropped(self@, x0 as int, y0 as int, w as nat, h as nat),
                    target.pixels.len() == w * h,
                    pixels@.len() == dy * w + dx,
                    forall|i: int| 0 <= i < pixels@.len() ==> #[trigger] pixels@[i] == target.pixels[i],
                decreases w - dx,
            {
                let p = self.get(x0 + dx, y0 + dy);
                proof {
                    lemma_index(w as int, h as int, dx as int, dy as int);
                }
                pixels.push(p);
                dx = dx + 1;
            }
            proof {
                assert(dy * w + w == (dy + 1) * w) by (nonlinear_arith);
            }
            dy = dy + 1;
        }
        assert(dy * w == w * h) by (nonlinear_arith)
            requires
                dy == h,
        ;
        let r = Raster { width: w, height: h, pixels };
        assert(r@.pixels =~= target.pixels);
        r
    }
}

/// The image crate's decoding error; the editing operations turn it into `DecodeFailure`.
#[verifier::external_type_specification]
#[verifier::external_body]
pub struct ExImageError(image::ImageError);

/// Relies on image::load_from_memory, which guesses the format from the bytes and decodes
/// them, and on DynamicImage::to_rgba8, whose buffer holds four bytes for each pixel.
#[verifier::external_body]
pub(crate) fn decode_image(bytes: &[u8]) -> (r: Result<Raster, image::ImageError>)
    ensures
        match r {
            Ok(img) => img.wf() && decoded_image(bytes@) == Some(img@),
            Err(_) => decoded_image(bytes@) is None,
        },
{
    let img = image::load_from_memory(bytes)?.to_rgba8();
    let (width, height) = img.dimensions();
    let pixels = img.pixels().map(|p| Rgba { r: p.0[0], g: p.0[1], b: p.0[2], a: p.0[3] }).collect();
    Ok(Raster { width, height, pixels })
}

/// Relies on image::imageops::overlay: every pixel of `top` that lands inside `bottom` once
/// the corner of `top` is put at `(x, y)` is blended onto the pixel beneath it with
/// `Rgba::blend`, which returns at once for a fully transparent top pixel and copies a fully
/// opaque one; the other pixels of `bottom` are not touched.
#[verifier::external_body]
pub(crate) fn overlay(bottom: &mut Raster, top: &Raster, x: i64, y: i64)
    requires
        old(bottom).wf(),
        top.wf(),
        -0x4000_0000_0000_0000 <= x <= 0x4000_0000_0000_0000,
        -0x4000_0000_0000_0000 <= y <= 0x4000_0000_0000_0000,
    ensures
        final(bottom).wf(),
        final(bottom)@ == overlaid(old(bottom)@, top@, x as int, y as int),
        forall|i: int|
            #![trigger final(bottom)@.pixels[i]]
            0 <= i < old(bottom)@.pixels.len() && top@.in_bounds(
                old(bottom)@.col(i) - x,
                old(bottom)@.row(i) - y,
            ) && 0 < top@.at(old(bottom)@.col(i) - x, old(bottom)@.row(i) - y).a < 255
                ==> final(bottom)@.pixels[i] == blended(
                old(bottom)@.pixels[i],
                top@.at(old(bottom)@.col(i) - x, old(bottom)@.row(i) - y),
            ),
{
    let raw = |r: &Raster| r.pixels.iter().flat_map(|p| [p.r, p.g, p.b, p.a]).collect::<Vec<u8>>();
    let mut canvas = image::RgbaImage::from_raw(bottom.width, bottom.height, raw(bottom)).unwrap();
    let layer = image::RgbaImage::from_raw(top.width, top.height, raw(top)).unwrap();
    image::imageops::overlay(&mut canvas, &layer, x, y);
    bottom.pixels = canvas.pixels().map(|p| Rgba { r: p.0[0], g: p.0[1], b: p.0[2], a: p.0[3] }).collect();
}

} // verus!
