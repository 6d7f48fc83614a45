use vstd::prelude::*;

verus! {

/// An RGB image with 8-bit channels, held in an `image::RgbImage`.
///
/// `ImageBuffer` cannot be declared to Verus through its `Pixel` bound, so
/// the image stays hidden in this struct and its contents are seen through
/// `raster_pixels` and `raster_dims`.
#[verifier::external_body]
pub struct RgbRaster {
    img: image::RgbImage,
}

/// The pixels of a raster, row by row from the top, each row from left to
/// right: pixel `(x, y)` stands at index `y * width + x`.
pub uninterp spec fn raster_pixels(r: RgbRaster) -> Seq<[u8; 3]>;

/// The `(width, height)` of a raster.
pub uninterp spec fn raster_dims(r: RgbRaster) -> (u32, u32);

/// The samples of a pixel sequence: three channels per pixel, in order.
pub open spec fn samples_of(p: Seq<[u8; 3]>) -> Seq<u8> {
    Seq::new(3 * p.len(), |k: int| p[k / 3]@[k % 3])
}

/// Pixel `(x, y)` of a raster of the given width.
pub open spec fn pixel_at(r: RgbRaster, x: int, y: int) -> [u8; 3] {
    raster_pixels(r)[y * raster_dims(r).0 + x]
}

/// Fills a `width` by `height` raster, row by row from the top, with the
/// pixel that `shade` gives for each coordinate `(x, y)`; `x` counts columns
/// from the left and `y` rows from the top.
pub fn render_pixels<F: Fn(u32, u32) -> [u8; 3]>(width: u32, height: u32, shade: F) -> (r:
    RgbRaster)
    requires
        3 * width * height <= isize::MAX,
        forall|x: u32, y: u32| x < width && y < height ==> shade.requires((x, y)),
    ensures
        raster_dims(r) == (width, height),
        raster_pixels(r).len() == width * height,
        forall|x: u32, y: u32|
            x < width && y < height ==> shade.ensures((x, y), #[trigger] pixel_at(r, x as int, y as int)),
{
    let mut img = RgbRaster::blank(width, height);
    let mut y: u32 = 0;
    while y < height
        invariant
            y <= height,
            3 * width * height <= isize::MAX,
            forall|x: u32, y: u32| x < width && y < height ==> shade.requires((x, y)),
            raster_dims(img) == (width, height),
            raster_pixels(img).len() == width * height,
            forall|px: u32, py: u32|
                px < width && py < y ==> shade.ensures((px, py), #[trigger] pixel_at(img, px as int, py as int)),
        decreases height - y,
    {
        let mut x: u32 = 0;
        while x < width
            invariant
                x <= width,
                y < height,
                3 * width * height <= isize::MAX,
                forall|x: u32, y: u32| x < width && y < height ==> shade.requires((x, y)),
                raster_dims(img) == (width, height),
                raster_pixels(img).len() == width * height,
                forall|px: u32, py: u32|
                    px < width && (py < y || (py == y && px < x)) ==> shade.ensures(
                        (px, py),
                        #[trigger] pixel_at(img, px as int, py as int),
                    ),
            decreases width - x,
        {
            let rgb = shade(x, y);
            let ghost before = img;
            proof {
                lemma_pixel_index_bounds(width as int, height as int, x as int, y as int);
            }
            img.put(x, y, rgb);
            assert forall|px: u32, py: u32|
                px < width && (py < y || (py == y && px < x + 1)) implies shade.ensures(
                    (px, py),
                    #[trigger] pixel_at(img, px as int, py as int),
                ) by {
                lemma_pixel_index_bounds(width as int, height as int, px as int, py as int);
                if px != x || py != y {
                    lemma_pixel_index_distinct(width as int, x as int, y as int, px as int, py as int);
                    assert(pixel_at(img, px as int, py as int) == pixel_at(before, px as int, py as int));
                }
            }
            x = x + 1;
        }
        y = y + 1;
    }
    img
}

proof fn lemma_pixel_index_bounds(w: int, h: int, x: int, y: int)
    requires
        0 <= x < w,
        0 <= y < h,
    ensures
        0 <= y * w + x < w * h,
{
    assert(y * w <= (h - 1) * w) by (nonlinear_arith)
        requires 0 <= y < h, 0 <= w;
    assert((h - 1) * w + w == h * w) by (nonlinear_arith);
    assert(0 <= y * w) by (nonlinear_arith)
        requires 0 <= y, 0 <= w;
    assert(w * h == h * w) by (nonlinear_arith);
}

proof fn lemma_pixel_index_distinct(w: int, x: int, y: int, px: int, py: int)
    requires
        0 <= x < w,
        0 <= px < w,
        px != x || py != y,
    ensures
        py * w + px != y * w + x,
{
    if py == y {
    } else if py < y {
        assert(py * w + w <= y * w) by (nonlinear_arith)
            requires py < y, 0 <= w;
    } else {
        assert(y * w + w <= py * w) by (nonlinear_arith)
            requires y < py, 0 <= w;
    }
}

impl RgbRaster {
    /// Relies on `image::ImageBuffer::new`: a `width` by `height` image whose
    /// samples are all zero, that is whose pixels are all black. It panics
    /// when `3 * width * height` overflows `usize`, and its zeroed `Vec`
    /// cannot be longer than `isize::MAX`.
    #[verifier::external_body]
    fn blank(width: u32, height: u32) -> (r: RgbRaster)
        requires
            3 * width * height <= isize::MAX,
        ensures
            raster_dims(r) == (width, height),
            raster_pixels(r) == Seq::new((width * height) as nat, |k: int| [0u8, 0u8, 0u8]),
    {
        RgbRaster { img: image::RgbImage::new(width, height) }
    }

    /// Relies on `image::ImageBuffer::put_pixel`: it overwrites the pixel at
    /// `(x, y)`, stored at index `y * width + x`, and leaves the others; it
    /// panics when `(x, y)` lies outside the image.
    #[verifier::external_body]
    fn put(&mut self, x: u32, y: u32, rgb: [u8; 3])
        requires
            x < raster_dims(*old(self)).0,
            y < raster_dims(*old(self)).1,
        ensures
            raster_dims(*final(self)) == raster_dims(*old(self)),
            raster_pixels(*final(self)) == raster_pixels(*old(self)).update(
                y * raster_dims(*old(self)).0 + x,
                rgb,
            ),
    {
        self.img.put_pixel(x, y, image::Rgb(rgb));
    }

    /// Relies on `image::ImageBuffer::into_raw`: the sample buffer, three
    /// channels per pixel in pixel order. A raster made by `blank` holds
    /// exactly `3 * width * height` samples.
    #[verifier::external_body]
    fn raw_samples(self) -> (r: Vec<u8>)
        ensures
            r@ == samples_of(raster_pixels(self)),
    {
        self.img.into_raw()
    }

    /// The red, green and blue samples of the pixels, in pixel order.
    pub fn into_samples(self) -> (r: Vec<u8>)
        ensures
            r@ == samples_of(raster_pixels(self)),
    {
        self.raw_samples()
    }
}

} // verus!
