use vstd::prelude::*;

verus! {

/// An RGB image of the `image` crate, with one byte per channel.
#[verifier::external_body]
pub struct RgbCanvas {
    img: image::RgbImage,
}

/// The pixels of a canvas, row by row, each as its red, green and blue bytes.
pub uninterp spec fn canvas_pixels(c: RgbCanvas) -> Seq<(u8, u8, u8)>;

/// The width of a canvas, in pixels.
pub uninterp spec fn canvas_width(c: RgbCanvas) -> nat;

/// The height of a canvas, in pixels.
pub uninterp spec fn canvas_height(c: RgbCanvas) -> nat;

/// Position of pixel `(x, y)` in the row-major pixel sequence of an image `width` wide.
pub open spec fn pixel_index(width: nat, x: nat, y: nat) -> int {
    (y * width + x) as int
}

/// The bytes of `pixels` laid out one after another, red, green, then blue.
pub open spec fn packed_bytes(pixels: Seq<(u8, u8, u8)>) -> Seq<u8> {
    Seq::new(
        3 * pixels.len(),
        |k: int|
            if k % 3 == 0 {
                pixels[k / 3].0
            } else if k % 3 == 1 {
                pixels[k / 3].1
            } else {
                pixels[k / 3].2
            },
    )
}

impl RgbCanvas {
    /// Relies on image::ImageBuffer::new: an image of the given size, every byte zero.
    /// It panics when the byte count overflows `usize`, which `requires` leaves out.
    #[verifier::external_body]
    pub(crate) fn new(width: u32, height: u32) -> (c: RgbCanvas)
        requires
            3 * (width as int) * (height as int) <= usize::MAX,
        ensures
            canvas_width(c) == width as nat,
            canvas_height(c) == height as nat,
            canvas_pixels(c) == Seq::new(
                (width as nat) * (height as nat),
                |i: int| (0u8, 0u8, 0u8),
            ),
    {
        RgbCanvas { img: image::RgbImage::new(width, height) }
    }

    /// Relies on image::ImageBuffer::put_pixel: overwrites the one pixel at `(x, y)`.
    /// It panics outside the image, which `requires` leaves out.
    #[verifier::external_body]
    pub(crate) fn put(&mut self, x: u32, y: u32, rgb: (u8, u8, u8))
        requires
            (x as nat) < canvas_width(*old(self)),
            (y as nat) < canvas_height(*old(self)),
        ensures
            canvas_width(*final(self)) == canvas_width(*old(self)),
            canvas_height(*final(self)) == canvas_height(*old(self)),
            canvas_pixels(*final(self)) == canvas_pixels(*old(self)).update(
                pixel_index(canvas_width(*old(self)), x as nat, y as nat),
                rgb,
            ),
    {
        self.img.put_pixel(x, y, image::Rgb([rgb.0, rgb.1, rgb.2]));
    }

    /// Relies on image::ImageBuffer::get_pixel: reads the one pixel at `(x, y)`.
    /// It panics outside the image, which `requires` leaves out.
    #[verifier::external_body]
    pub(crate) fn get(&self, x: u32, y: u32) -> (rgb: (u8, u8, u8))
        requires
            (x as nat) < canvas_width(*self),
            (y as nat) < canvas_height(*self),
        ensures
            rgb == canvas_pixels(*self)[pixel_index(canvas_width(*self), x as nat, y as nat)],
    {
        let p = self.img.get_pixel(x, y);
        (p.0[0], p.0[1], p.0[2])
    }

    /// Relies on image::ImageBuffer::into_raw: the buffer that holds the pixels, row by
    /// row, three bytes to a pixel.
    #[verifier::external_body]
    pub(crate) fn into_raw(self) -> (bytes: Vec<u8>)
        ensures
            bytes@ == packed_bytes(canvas_pixels(self)),
    {
        self.img.into_raw()
    }
}

} // verus!
