//! The pixel grid the filters read and fill: an RGB image buffer of the
//! `image` crate, with the few operations the convolution needs.

use vstd::prelude::*;

verus! {

/// The colour of one pixel: its red, green and blue channel values.
pub type Color = (u8, u8, u8);

/// An 8-bit RGB image. The pixels live in an `image::RgbImage`; verified code
/// reaches them only through the operations below, and reasons about them
/// through `image_width`, `image_height` and `image_pixels`.
#[verifier::external_body]
#[derive(Debug)]
pub struct Image {
    buffer: image::RgbImage,
}

/// The number of pixel columns of an image.
pub uninterp spec fn image_width(img: Image) -> nat;

/// The number of pixel rows of an image.
pub uninterp spec fn image_height(img: Image) -> nat;

/// The colours an image holds, keyed by column and row.
pub uninterp spec fn image_pixels(img: Image) -> Map<(int, int), Color>;

/// The red (0), green (1) or blue (any other index) channel of a colour.
pub open spec fn channel(color: Color, index: int) -> int {
    if index == 0 {
        color.0 as int
    } else if index == 1 {
        color.1 as int
    } else {
        color.2 as int
    }
}

/// `ImageBuffer::new`: a buffer of the given size in which every sample is
/// zero, so every pixel is black. The outside constructor panics when the
/// sample count `3 * width * height` does not fit a `usize`, and the vector
/// it allocates panics when the count is more than `isize::MAX`.
#[verifier::external_body]
pub(crate) fn blank_buffer(width: u32, height: u32) -> (img: Image)
    requires
        3 * width * height <= isize::MAX,
    ensures
        image_width(img) == width,
        image_height(img) == height,
        forall|x: int, y: int|
            0 <= x < width && 0 <= y < height ==> #[trigger] image_pixels(img)[(x, y)] == (
                0u8,
                0u8,
                0u8,
            ),
{
    Image { buffer: image::RgbImage::new(width, height) }
}

/// `ImageBuffer::dimensions`: the width and height the buffer was made with.
/// Every constructor of the buffer has checked that the vector behind it
/// holds at least `3 * width * height` samples, and no vector of bytes is
/// longer than `isize::MAX`.
#[verifier::external_body]
fn buffer_dimensions(img: &Image) -> (dims: (u32, u32))
    ensures
        dims.0 == image_width(*img),
        dims.1 == image_height(*img),
        3 * dims.0 * dims.1 <= isize::MAX,
{
    img.buffer.dimensions()
}

/// `ImageBuffer::get_pixel`: the pixel stored at column `x` of row `y`. The
/// outside method panics when the coordinate lies outside the grid.
#[verifier::external_body]
fn buffer_get_pixel(img: &Image, x: u32, y: u32) -> (color: Color)
    requires
        x < image_width(*img),
        y < image_height(*img),
    ensures
        color == image_pixels(*img)[(x as int, y as int)],
{
    let rgb = img.buffer.get_pixel(x, y).0;
    (rgb[0], rgb[1], rgb[2])
}

/// `ImageBuffer::put_pixel`: stores a pixel at column `x` of row `y`, leaving
/// the size and every other pixel as they were. The outside method panics when
/// the coordinate lies outside the grid.
#[verifier::external_body]
pub(crate) fn buffer_put_pixel(img: &mut Image, x: u32, y: u32, color: Color)
    requires
        x < image_width(*old(img)),
        y < image_height(*old(img)),
    ensures
        image_width(*final(img)) == image_width(*old(img)),
        image_height(*final(img)) == image_height(*old(img)),
        image_pixels(*final(img)) == image_pixels(*old(img)).insert((x as int, y as int), color),
{
    img.buffer.put_pixel(x, y, image::Rgb([color.0, color.1, color.2]));
}

impl Image {
    /// The colour at column `x` of row `y`.
    pub open spec fn pixel(self, x: int, y: int) -> Color {
        image_pixels(self)[(x, y)]
    }

    /// Whether `(x, y)` names a pixel of this image.
    pub open spec fn contains(self, x: int, y: int) -> bool {
        0 <= x < image_width(self) && 0 <= y < image_height(self)
    }

    /// Whether this image has the size of `other`.
    pub open spec fn same_size(self, other: Image) -> bool {
        image_width(self) == image_width(other) && image_height(self) == image_height(other)
    }

    /// Whether `pixels` lists the colours of this image row by row, each row
    /// from left to right.
    pub open spec fn has_pixels(self, pixels: Seq<Color>) -> bool {
        &&& pixels.len() == image_width(self) * image_height(self)
        &&& forall|x: int, y: int|
            self.contains(x, y) ==> #[trigger] self.pixel(x, y) == pixels[y * image_width(self) + x]
    }

    /// A black image of the given size. There is none when the sample count
    /// `3 * width * height` is more than `isize::MAX`, the most a vector holds.
    pub fn new(width: u32, height: u32) -> (made: Option<Image>)
        ensures
            made.is_some() <==> 3 * width * height <= isize::MAX,
            made.is_some() ==> {
                &&& image_width(made.unwrap()) == width
                &&& image_height(made.unwrap()) == height
                &&& forall|x: int, y: int|
                    made.unwrap().contains(x, y) ==> #[trigger] made.unwrap().pixel(x, y) == (
                        0u8,
                        0u8,
                        0u8,
                    )
            },
    {
        assert(3 * width * height <= 3 * 0xffff_ffff * 0xffff_ffff) by (nonlinear_arith)
            requires
                0 <= width <= 0xffff_ffff,
                0 <= height <= 0xffff_ffff,
        ;
        let samples: u128 = 3 * (width as u128) * (height as u128);
        if samples > isize::MAX as u128 {
            None
        } else {
            Some(blank_buffer(width, height))
        }
    }

    /// The image of the given size whose pixels are `pixels`, row by row. There
    /// is none when `pixels` has not exactly `width * height` colours, or when
    /// the sample count `3 * width * height` is more than `isize::MAX`.
    pub fn from_pixels(width: u32, height: u32, pixels: &Vec<Color>) -> (made: Option<Image>)
        ensures
            made.is_some() <==> pixels@.len() == width * height && 3 * width * height
                <= isize::MAX,
            made.is_some() ==> {
                &&& image_width(made.unwrap()) == width
                &&& image_height(made.unwrap()) == height
                &&& made.unwrap().has_pixels(pixels@)
            },
    {
        assert(width * height <= 0xffff_ffff * 0xffff_ffff) by (nonlinear_arith)
            requires
                0 <= width <= 0xffff_ffff,
                0 <= height <= 0xffff_ffff,
        ;
        let count: u128 = (width as u128) * (height as u128);
        assert(3 * width * height == 3 * count) by (nonlinear_arith)
            requires
                count == width * height,
        ;
        let total = pixels.len();
        if total as u128 != count || 3 * count > isize::MAX as u128 {
            return None;
        }
        let mut image = blank_buffer(width, height);
        let mut next: usize = 0;
        let mut y: u32 = 0;
        while y < height
            invariant
                y <= height,
                next == y * width,
                total == pixels@.len(),
                total == width * height,
                image_width(image) == width,
                image_height(image) == height,
                forall|a: int, b: int|
                    0 <= a < width && 0 <= b < y ==> #[trigger] image.pixel(a, b) == pixels@[b
                        * width + a],
            decreases height - y,
        {
            let mut x: u32 = 0;
            while x < width
                invariant
                    x <= width,
                    y < height,
                    next == y * width + x,
                    total == pixels@.len(),
                    total == width * height,
                    image_width(image) == width,
                    image_height(image) == height,
                    forall|a: int, b: int|
                        0 <= a < width && (0 <= b < y || (b == y && a < x))
                            ==> #[trigger] image.pixel(a, b) == pixels@[b * width + a],
                decreases width - x,
            {
                assert(y * width + width <= width * height) by (nonlinear_arith)
                    requires
                        0 <= y < height,
                        0 <= width,
                ;
                let ghost before = image;
                buffer_put_pixel(&mut image, x, y, pixels[next]);
                assert forall|a: int, b: int|
                    0 <= a < width && (0 <= b < y || (b == y && a < x + 1))
                        implies #[trigger] image.pixel(a, b) == pixels@[b * width + a] by {
                    if a != x || b != y {
                        assert(image.pixel(a, b) == before.pixel(a, b));
                    }
                }
                next += 1;
                x += 1;
            }
            assert((y + 1) * width == y * width + width) by (nonlinear_arith);
            y += 1;
        }
        Some(image)
    }

    /// The width and height of the image, in pixels.
    pub fn dimensions(&self) -> (dims: (u32, u32))
        ensures
            dims.0 == image_width(*self),
            dims.1 == image_height(*self),
            3 * dims.0 * dims.1 <= isize::MAX,
    {
        buffer_dimensions(self)
    }

    /// The colour at column `x` of row `y`.
    pub fn get_pixel(&self, x: u32, y: u32) -> (color: Color)
        requires
            self.contains(x as int, y as int),
        ensures
            color == self.pixel(x as int, y as int),
    {
        buffer_get_pixel(self, x, y)
    }

    /// Sets the colour at column `x` of row `y`; the size and all other pixels
    /// stay as they are.
    pub fn put_pixel(&mut self, x: u32, y: u32, color: Color)
        requires
            old(self).contains(x as int, y as int),
        ensures
            final(self).same_size(*old(self)),
            final(self).pixel(x as int, y as int) == color,
            forall|a: int, b: int|
                (a != x || b != y) ==> #[trigger] final(self).pixel(a, b) == old(self).pixel(a, b),
    {
        buffer_put_pixel(self, x, y, color);
    }

    /// The colours of the image, row by row, each row from left to right.
    pub fn to_pixels(&self) -> (pixels: Vec<Color>)
        ensures
            self.has_pixels(pixels@),
    {
        let (width, height) = self.dimensions();
        let mut pixels: Vec<Color> = Vec::new();
        let mut y: u32 = 0;
        while y < height
            invariant
                y <= height,
                width == image_width(*self),
                height == image_height(*self),
                pixels@.len() == y * width,
                forall|a: int, b: int|
                    0 <= a < width && 0 <= b < y ==> #[trigger] self.pixel(a, b) == pixels@[b
                        * width + a],
            decreases height - y,
        {
            let mut x: u32 = 0;
            while x < width
                invariant
                    x <= width,
                    y < height,
                    width == image_width(*self),
                    height == image_height(*self),
                    pixels@.len() == y * width + x,
                    forall|a: int, b: int|
                        0 <= a < width && (0 <= b < y || (b == y && a < x))
                            ==> #[trigger] self.pixel(a, b) == pixels@[b * width + a],
                decreases width - x,
            {
                let ghost before = pixels@;
                pixels.push(self.get_pixel(x, y));
                assert forall|a: int, b: int|
                    0 <= a < width && (0 <= b < y || (b == y && a < x + 1))
                        implies #[trigger] self.pixel(a, b) == pixels@[b * width + a] by {
                    if b < y {
                        assert(b * width + width <= y * width) by (nonlinear_arith)
                            requires
                                0 <= b < y,
                                0 <= width,
                        ;
                        assert(pixels@[b * width + a] == before[b * width + a]);
                    } else if a < x {
                        assert(pixels@[b * width + a] == before[b * width + a]);
                    }
                }
                x += 1;
            }
            assert((y + 1) * width == y * width + width) by (nonlinear_arith);
            y += 1;
        }
        assert(height * width == width * height) by (nonlinear_arith);
        pixels
    }
}

} // verus!
