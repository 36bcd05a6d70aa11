//! A raster image of the `image` crate, drawn on through `imageproc`.

use vstd::prelude::*;
use image::{ImageBuffer, LumaA};
use imageproc::drawing::draw_filled_rect_mut;
use imageproc::rect::Rect;

verus! {

/// An image of pixels that hold a luminance and an alpha value: an
/// `ImageBuffer` of the `image` crate.
#[verifier::external_body]
pub struct Canvas {
    buffer: ImageBuffer<LumaA<u8>, Vec<u8>>,
}

/// The size of an image: the number of pixels in a row, and the number of rows.
pub uninterp spec fn canvas_size(canvas: Canvas) -> (int, int);

/// The number of pixels in a row of an image.
pub open spec fn canvas_width(canvas: Canvas) -> int {
    canvas_size(canvas).0
}

/// The number of rows of an image.
pub open spec fn canvas_height(canvas: Canvas) -> int {
    canvas_size(canvas).1
}

/// The pixels of an image, each by its column and row: its luminance and its
/// alpha. The keys are the places inside the image.
pub uninterp spec fn canvas_pixels(canvas: Canvas) -> Map<(int, int), (u8, u8)>;

impl Canvas {
    /// `ImageBuffer::from_pixel`: an image of the given size with every pixel
    /// the same.
    #[verifier::external_body]
    pub(crate) fn uniform(width: u32, height: u32, luma: u8, alpha: u8) -> (canvas: Canvas)
        requires
            2 * width <= usize::MAX,
            2 * width * height <= usize::MAX,
        ensures
            canvas_size(canvas) == (width as int, height as int),
            forall|x: int, y: int|
                #![trigger canvas_pixels(canvas)[(x, y)]]
                #![trigger canvas_pixels(canvas).dom().contains((x, y))]
                0 <= x < width && 0 <= y < height ==> canvas_pixels(canvas).dom().contains((x, y))
                    && canvas_pixels(canvas)[(x, y)] == (luma, alpha),
    {
        Canvas { buffer: ImageBuffer::from_pixel(width, height, LumaA([luma, alpha])) }
    }

    /// `imageproc::drawing::draw_filled_rect_mut`: gives every pixel of the
    /// image that lies in the rectangle the colour, and leaves every other
    /// pixel and the size of the image as they were.
    #[verifier::external_body]
    pub(crate) fn fill_rect(
        &mut self,
        left: i32,
        top: i32,
        width: u32,
        height: u32,
        luma: u8,
        alpha: u8,
    )
        requires
            0 < width <= i32::MAX,
            0 < height <= i32::MAX,
            left + width <= i32::MAX,
            top + height <= i32::MAX,
            0 < canvas_width(*old(self)) <= i32::MAX,
            0 < canvas_height(*old(self)) <= i32::MAX,
        ensures
            canvas_size(*final(self)) == canvas_size(*old(self)),
            forall|x: int, y: int|
                #![trigger canvas_pixels(*final(self))[(x, y)]]
                #![trigger canvas_pixels(*final(self)).dom().contains((x, y))]
                0 <= x < canvas_width(*old(self)) && 0 <= y < canvas_height(*old(self))
                    ==> canvas_pixels(*final(self)).dom().contains((x, y)) && canvas_pixels(
                    *final(self),
                )[(x, y)] == (if left <= x < left + width && top <= y < top + height {
                    (luma, alpha)
                } else {
                    canvas_pixels(*old(self))[(x, y)]
                }),
    {
        let rect = Rect::at(left, top).of_size(width, height);
        draw_filled_rect_mut(&mut self.buffer, rect, LumaA([luma, alpha]))
    }

    /// `ImageBuffer::width`: the number of pixels in a row.
    #[verifier::external_body]
    fn buffer_width(&self) -> (width: u32)
        ensures
            width == canvas_size(*self).0,
    {
        self.buffer.width()
    }

    /// `ImageBuffer::height`: the number of rows.
    #[verifier::external_body]
    fn buffer_height(&self) -> (height: u32)
        ensures
            height == canvas_size(*self).1,
    {
        self.buffer.height()
    }

    /// `ImageBuffer::get_pixel`: the luminance and the alpha of the pixel in
    /// column `x` of row `y`, which must lie in the image.
    #[verifier::external_body]
    fn buffer_pixel(&self, x: u32, y: u32) -> (pixel: (u8, u8))
        requires
            x < canvas_width(*self),
            y < canvas_height(*self),
        ensures
            pixel == canvas_pixels(*self)[(x as int, y as int)],
    {
        let LumaA([luma, alpha]) = *self.buffer.get_pixel(x, y);
        (luma, alpha)
    }

    /// The number of pixels in a row.
    pub fn width(&self) -> (width: u32)
        ensures
            width == canvas_width(*self),
    {
        self.buffer_width()
    }

    /// The number of rows.
    pub fn height(&self) -> (height: u32)
        ensures
            height == canvas_height(*self),
    {
        self.buffer_height()
    }

    /// The luminance and the alpha of the pixel in column `x` of row `y`, or
    /// `None` where the image has no such pixel.
    pub fn pixel(&self, x: u32, y: u32) -> (pixel: Option<(u8, u8)>)
        ensures
            pixel == (if x < canvas_width(*self) && y < canvas_height(*self) {
                Some(canvas_pixels(*self)[(x as int, y as int)])
            } else {
                None
            }),
    {
        if x < self.buffer_width() && y < self.buffer_height() {
            Some(self.buffer_pixel(x, y))
        } else {
            None
        }
    }
}

} // verus!
