use vstd::prelude::*;

use crate::image_buffer::{
    canvas_height, canvas_pixels, canvas_width, packed_bytes, pixel_index, RgbCanvas,
};

verus! {

/// Number of `true` entries in `s`.
pub open spec fn count_filled(s: Seq<bool>) -> nat
    decreases s.len(),
{
    if s.len() == 0 {
        0
    } else {
        count_filled(s.drop_last()) + if s.last() {
            1nat
        } else {
            0nat
        }
    }
}

/// Every entry of `s` is `true`.
pub open spec fn all_filled(s: Seq<bool>) -> bool {
    forall|i: int| 0 <= i < s.len() ==> #[trigger] s[i]
}

proof fn lemma_count_filled_le(s: Seq<bool>)
    ensures
        count_filled(s) <= s.len(),
        count_filled(s) == s.len() <==> all_filled(s),
    decreases s.len(),
{
    if s.len() > 0 {
        let t = s.drop_last();
        lemma_count_filled_le(t);
        assert forall|i: int| 0 <= i < t.len() implies #[trigger] t[i] == s[i] by {}
        if all_filled(s) {
            assert(all_filled(t)) by {
                assert forall|i: int| 0 <= i < t.len() implies #[trigger] t[i] by {
                    assert(s[i]);
                }
            }
            assert(s[s.len() - 1]);
        }
        if count_filled(s) == s.len() {
            assert forall|i: int| 0 <= i < s.len() implies #[trigger] s[i] by {
                if i < s.len() - 1 {
                    assert(t[i]);
                }
            }
        }
    }
}

proof fn lemma_count_filled_none(n: nat)
    ensures
        count_filled(Seq::new(n, |i: int| false)) == 0,
    decreases n,
{
    if n > 0 {
        let s = Seq::new(n, |i: int| false);
        assert(s.drop_last() =~= Seq::new((n - 1) as nat, |i: int| false));
        lemma_count_filled_none((n - 1) as nat);
    }
}

proof fn lemma_count_filled_set(s: Seq<bool>, i: int)
    requires
        0 <= i < s.len(),
        !s[i],
    ensures
        count_filled(s.update(i, true)) == count_filled(s) + 1,
    decreases s.len(),
{
    let u = s.update(i, true);
    if i == s.len() - 1 {
        assert(u.drop_last() =~= s.drop_last());
    } else {
        assert(u.drop_last() =~= s.drop_last().update(i, true));
        lemma_count_filled_set(s.drop_last(), i);
    }
}

proof fn lemma_index_in_image(width: nat, height: nat, x: nat, y: nat)
    requires
        x < width,
        y < height,
    ensures
        0 <= pixel_index(width, x, y) < width * height,
{
    assert(y * width + x < width * height) by (nonlinear_arith)
        requires
            x < width,
            y < height,
    ;
}

/// The image row, counted from the top, that scanline `j` of the sampler fills;
/// scanlines are counted from the bottom.
pub fn output_row(j: u32, height: u32) -> (r: u32)
    requires
        j < height,
    ensures
        r == height - 1 - j,
{
    height - 1 - j
}

/// Scanlines fill distinct image rows, and every row of the image is filled by one
/// of them: each pixel result of a render lands in a cell of its own.
pub proof fn lemma_rows_partition(height: u32, j1: u32, j2: u32, y: u32)
    requires
        j1 < height,
        j2 < height,
        y < height,
    ensures
        height - 1 - j1 == height - 1 - j2 ==> j1 == j2,
        exists|j: u32| j < height && #[trigger] (height - 1 - j) == y as int,
{
    let j: u32 = (height - 1 - y) as u32;
    assert(j < height && (height - 1 - j) == y as int);
}

/// Why a pixel result was not taken into a framebuffer.
#[derive(Debug, Clone, Copy, PartialEq, Eq, Structural)]
pub enum PixelError {
    /// The coordinates lie outside the image.
    OutOfBounds,
    /// The pixel already holds a result.
    AlreadyWritten,
}

/// Collects one color per pixel of an image, each written once, in any order.
pub struct Framebuffer {
    width: u32,
    height: u32,
    canvas: RgbCanvas,
    written: Vec<bool>,
    received: usize,
}

impl Framebuffer {
    /// Width of the image, in pixels.
    pub closed spec fn spec_width(&self) -> nat {
        self.width as nat
    }

    /// Height of the image, in pixels.
    pub closed spec fn spec_height(&self) -> nat {
        self.height as nat
    }

    /// The colors of the pixels, row by row; a pixel not yet written is black.
    pub closed spec fn pixels(&self) -> Seq<(u8, u8, u8)> {
        canvas_pixels(self.canvas)
    }

    /// Which pixels have been written, in the order of `pixels`.
    pub closed spec fn filled(&self) -> Seq<bool> {
        self.written@
    }

    pub closed spec fn wf(&self) -> bool {
        &&& canvas_width(self.canvas) == self.width as nat
        &&& canvas_height(self.canvas) == self.height as nat
        &&& canvas_pixels(self.canvas).len() == (self.width as nat) * (self.height as nat)
        &&& self.written@.len() == (self.width as nat) * (self.height as nat)
        &&& self.received as nat == count_filled(self.written@)
        &&& (self.width as nat) * (self.height as nat) <= usize::MAX
    }

    /// An empty framebuffer of the given size: every pixel black and not yet written.
    pub fn new(width: u32, height: u32) -> (fb: Framebuffer)
        requires
            3 * (width as int) * (height as int) <= usize::MAX,
        ensures
            fb.wf(),
            fb.spec_width() == width as nat,
            fb.spec_height() == height as nat,
            fb.pixels() == Seq::new((width as nat) * (height as nat), |i: int| (0u8, 0u8, 0u8)),
            fb.filled() == Seq::new((width as nat) * (height as nat), |i: int| false),
    {
        let canvas = RgbCanvas::new(width, height);
        proof {
            assert((width as int) * (height as int) <= 3 * (width as int) * (height as int))
                by (nonlinear_arith)
                requires
                    0 <= (width as int) * (height as int),
            ;
        }
        let n: usize = width as usize * height as usize;
        let mut written: Vec<bool> = Vec::new();
        let mut i: usize = 0;
        while i < n
            invariant
                i <= n,
                n == (width as nat) * (height as nat),
                written@ == Seq::new(i as nat, |k: int| false),
            decreases n - i,
        {
            written.push(false);
            i = i + 1;
            assert(written@ =~= Seq::new(i as nat, |k: int| false));
        }
        proof {
            lemma_count_filled_none(n as nat);
        }
        Framebuffer { width, height, canvas, written, received: 0 }
    }

    /// Takes the color of pixel `(x, y)`, counted from the top-left corner. A pixel
    /// outside the image, or one that already holds a result, leaves the framebuffer
    /// unchanged and is reported as an error.
    pub fn put(&mut self, x: u32, y: u32, rgb: (u8, u8, u8)) -> (r: Result<(), PixelError>)
        requires
            old(self).wf(),
        ensures
            final(self).wf(),
            final(self).spec_width() == old(self).spec_width(),
            final(self).spec_height() == old(self).spec_height(),
            (x as nat) >= old(self).spec_width() || (y as nat) >= old(self).spec_height()
                ==> r == Err::<(), PixelError>(PixelError::OutOfBounds),
            (x as nat) < old(self).spec_width() && (y as nat) < old(self).spec_height()
                && old(self).filled()[pixel_index(old(self).spec_width(), x as nat, y as nat)]
                ==> r == Err::<(), PixelError>(PixelError::AlreadyWritten),
            r is Ok <==> (x as nat) < old(self).spec_width() && (y as nat) < old(
                self,
            ).spec_height() && !old(self).filled()[pixel_index(
                old(self).spec_width(),
                x as nat,
                y as nat,
            )],
            r is Err ==> *final(self) == *old(self),
            r is Ok ==> {
                let i = pixel_index(old(self).spec_width(), x as nat, y as nat);
                &&& (x as nat) < old(self).spec_width()
                &&& (y as nat) < old(self).spec_height()
                &&& !old(self).filled()[i]
                &&& final(self).pixels() == old(self).pixels().update(i, rgb)
                &&& final(self).filled() == old(self).filled().update(i, true)
                &&& count_filled(final(self).filled()) == count_filled(old(self).filled()) + 1
            },
    {
        if x >= self.width || y >= self.height {
            return Err(PixelError::OutOfBounds);
        }
        proof {
            lemma_index_in_image(self.width as nat, self.height as nat, x as nat, y as nat);
        }
        let i: usize = y as usize * self.width as usize + x as usize;
        if self.written[i] {
            return Err(PixelError::AlreadyWritten);
        }
        self.canvas.put(x, y, rgb);
        proof {
            lemma_count_filled_set(self.written@, i as int);
            lemma_count_filled_le(self.written@.update(i as int, true));
        }
        self.written.set(i, true);
        self.received = self.received + 1;
        Ok(())
    }

    /// The color of pixel `(x, y)`, or `None` outside the image.
    pub fn pixel(&self, x: u32, y: u32) -> (r: Option<(u8, u8, u8)>)
        requires
            self.wf(),
        ensures
            (x as nat) < self.spec_width() && (y as nat) < self.spec_height() ==> r == Some(
                self.pixels()[pixel_index(self.spec_width(), x as nat, y as nat)],
            ),
            (x as nat) >= self.spec_width() || (y as nat) >= self.spec_height() ==> r is None,
    {
        if x >= self.width || y >= self.height {
            return None;
        }
        Some(self.canvas.get(x, y))
    }

    /// How many pixels have been written so far.
    pub fn received(&self) -> (r: usize)
        requires
            self.wf(),
        ensures
            r as nat == count_filled(self.filled()),
    {
        self.received
    }

    /// Whether every pixel of the image has been written.
    pub fn is_complete(&self) -> (r: bool)
        requires
            self.wf(),
        ensures
            r == all_filled(self.filled()),
            r == (count_filled(self.filled()) == self.spec_width() * self.spec_height()),
    {
        proof {
            lemma_count_filled_le(self.written@);
        }
        self.received == self.written.len()
    }

    /// The finished image as bytes, row by row from the top, three to a pixel (red,
    /// green, blue); `None` while some pixel has not been written.
    pub fn into_rgb_bytes(self) -> (r: Option<Vec<u8>>)
        requires
            self.wf(),
        ensures
            r is Some <==> all_filled(self.filled()),
            r matches Some(bytes) ==> bytes@ == packed_bytes(self.pixels()),
    {
        if !self.is_complete() {
            return None;
        }
        Some(self.canvas.into_raw())
    }

    /// Width of the image, in pixels.
    pub fn width(&self) -> (r: u32)
        ensures
            r as nat == self.spec_width(),
    {
        self.width
    }

    /// Height of the image, in pixels.
    pub fn height(&self) -> (r: u32)
        ensures
            r as nat == self.spec_height(),
    {
        self.height
    }
}

} // verus!
