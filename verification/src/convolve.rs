//! The convolution engine: every output pixel is the weighted sum of the
//! input pixels around it, sampled with edge replication, each channel on its
//! own, rounded and saturated into a channel value.

use crate::kernel::{
    box_blur_kernel, force_odd, generate_box_blur_kernel, generate_sharpen_kernel, odd_size,
    sharpen_kernel, Kernel, KernelView,
};
use crate::raster::{
    blank_buffer, buffer_put_pixel, channel, image_height, image_width, Color, Image,
};
use crate::rounding::{quantize, quantize_sum};
use rayon::iter::{IntoParallelIterator, ParallelIterator};
use vstd::prelude::*;

verus! {

/// The index among `0..len` that is nearest to `position`: positions before
/// the first index go to the first, positions past the last go to the last.
pub open spec fn clamp_index(position: int, len: nat) -> int
    recommends
        len > 0,
{
    if position < 0 {
        0
    } else if position >= len {
        len - 1
    } else {
        position
    }
}

/// The input colour that the kernel cell at column `col` of row `row` reads
/// when the kernel is centred on `(x, y)`: the pixel offset from the centre by
/// the cell's distance from the middle cell, each axis clamped into the image.
pub open spec fn source_pixel(
    img: Image,
    k: KernelView,
    x: int,
    y: int,
    col: int,
    row: int,
) -> Color {
    img.pixel(
        clamp_index(x + col - k.half(), image_width(img)),
        clamp_index(y + row - k.half(), image_height(img)),
    )
}

/// What the first `cols` cells of kernel row `row` add to the sum of one
/// channel at `(x, y)`: each cell's integer times the channel value it reads.
pub open spec fn row_sum(
    img: Image,
    k: KernelView,
    x: int,
    y: int,
    index: int,
    row: int,
    cols: nat,
) -> int
    decreases cols,
{
    if cols == 0 {
        0
    } else {
        row_sum(img, k, x, y, index, row, (cols - 1) as nat) + k.weight(cols - 1, row) * channel(
            source_pixel(img, k, x, y, cols - 1, row),
            index,
        )
    }
}

/// What the first `rows` rows of the kernel add to the sum of one channel at
/// `(x, y)`.
pub open spec fn rows_sum(img: Image, k: KernelView, x: int, y: int, index: int, rows: nat) -> int
    decreases rows,
{
    if rows == 0 {
        0
    } else {
        rows_sum(img, k, x, y, index, (rows - 1) as nat) + row_sum(
            img,
            k,
            x,
            y,
            index,
            rows - 1,
            k.side(),
        )
    }
}

/// The sum over all kernel cells, for one channel at `(x, y)`, before the
/// division by the kernel's divisor.
pub open spec fn weighted_sum(img: Image, k: KernelView, x: int, y: int, index: int) -> int {
    rows_sum(img, k, x, y, index, k.side())
}

/// The colour of the filtered image at `(x, y)`.
pub open spec fn convolved_pixel(img: Image, k: KernelView, x: int, y: int) -> Color {
    (
        quantize(weighted_sum(img, k, x, y, 0), k.divisor),
        quantize(weighted_sum(img, k, x, y, 1), k.divisor),
        quantize(weighted_sum(img, k, x, y, 2), k.divisor),
    )
}

/// Row `y` of the filtered image, from left to right.
pub open spec fn convolved_row(img: Image, k: KernelView, y: int) -> Seq<Color> {
    Seq::new(image_width(img), |x: int| convolved_pixel(img, k, x, y))
}

/// `out` is `img` filtered with `k`: the same size, and at every coordinate
/// the colour that the weighted sum around it gives.
pub open spec fn is_convolution(out: Image, img: Image, k: KernelView) -> bool {
    &&& out.same_size(img)
    &&& forall|x: int, y: int|
        img.contains(x, y) ==> #[trigger] out.pixel(x, y) == convolved_pixel(img, k, x, y)
}

/// Offsets `position` by `offset - half` in a signed domain wide enough for
/// any pair of coordinates, then clamps the result into `0..len`.
fn clamped(position: u32, offset: usize, half: usize, len: u32) -> (index: u32)
    requires
        len > 0,
        offset <= u32::MAX,
        half <= u32::MAX,
    ensures
        index == clamp_index(position + offset - half, len as nat),
        index < len,
{
    let moved: i64 = position as i64 + offset as i64 - half as i64;
    if moved < 0 {
        0
    } else if moved >= len as i64 {
        len - 1
    } else {
        moved as u32
    }
}

/// The three channel sums that one row of the kernel adds at `(x, y)`. No
/// term exceeds a channel value times a 32-bit weight, `255 * 2^31`, in size,
/// which bounds each sum.
fn row_sums(image: &Image, kernel: &Kernel, x: u32, y: u32, row: usize) -> (sums: (
    i128,
    i128,
    i128,
))
    requires
        image.contains(x as int, y as int),
        row < kernel@.side(),
    ensures
        sums.0 == row_sum(*image, kernel@, x as int, y as int, 0, row as int, kernel@.side()),
        sums.1 == row_sum(*image, kernel@, x as int, y as int, 1, row as int, kernel@.side()),
        sums.2 == row_sum(*image, kernel@, x as int, y as int, 2, row as int, kernel@.side()),
        -0x7f_8000_0000 * kernel@.side() <= sums.0 <= 0x7f_8000_0000 * kernel@.side(),
        -0x7f_8000_0000 * kernel@.side() <= sums.1 <= 0x7f_8000_0000 * kernel@.side(),
        -0x7f_8000_0000 * kernel@.side() <= sums.2 <= 0x7f_8000_0000 * kernel@.side(),
{
    let (width, height) = image.dimensions();
    let side = kernel.side();
    let half = side / 2;
    let source_y = clamped(y, row, half, height);
    let mut red: i128 = 0;
    let mut green: i128 = 0;
    let mut blue: i128 = 0;
    let mut col: usize = 0;
    while col < side
        invariant
            col <= side,
            side == kernel@.side(),
            side <= u32::MAX,
            half == kernel@.half(),
            row < side,
            width == image_width(*image),
            height == image_height(*image),
            image.contains(x as int, y as int),
            source_y == clamp_index(y + row - half, height as nat),
            source_y < height,
            red == row_sum(*image, kernel@, x as int, y as int, 0, row as int, col as nat),
            green == row_sum(*image, kernel@, x as int, y as int, 1, row as int, col as nat),
            blue == row_sum(*image, kernel@, x as int, y as int, 2, row as int, col as nat),
            -0x7f_8000_0000 * col <= red <= 0x7f_8000_0000 * col,
            -0x7f_8000_0000 * col <= green <= 0x7f_8000_0000 * col,
            -0x7f_8000_0000 * col <= blue <= 0x7f_8000_0000 * col,
        decreases side - col,
    {
        let source_x = clamped(x, col, half, width);
        let color = image.get_pixel(source_x, source_y);
        let weight: i128 = kernel.weight(col, row) as i128;
        assert(color == source_pixel(*image, kernel@, x as int, y as int, col as int, row as int));
        assert(-0x7f_8000_0000 <= weight * color.0 <= 0x7f_8000_0000) by (nonlinear_arith)
            requires
                -0x8000_0000 <= weight <= 0x8000_0000,
                0 <= color.0 <= 255,
        ;
        assert(-0x7f_8000_0000 <= weight * color.1 <= 0x7f_8000_0000) by (nonlinear_arith)
            requires
                -0x8000_0000 <= weight <= 0x8000_0000,
                0 <= color.1 <= 255,
        ;
        assert(-0x7f_8000_0000 <= weight * color.2 <= 0x7f_8000_0000) by (nonlinear_arith)
            requires
                -0x8000_0000 <= weight <= 0x8000_0000,
                0 <= color.2 <= 255,
        ;
        red = red + weight * (color.0 as i128);
        green = green + weight * (color.1 as i128);
        blue = blue + weight * (color.2 as i128);
        col += 1;
    }
    (red, green, blue)
}

/// Filters one pixel: the weighted sum of its neighbourhood, channel by
/// channel, divided by the kernel's divisor, rounded and saturated.
pub fn convolve_pixel(image: &Image, kernel: &Kernel, x: u32, y: u32) -> (color: Color)
    requires
        image.contains(x as int, y as int),
    ensures
        color == convolved_pixel(*image, kernel@, x as int, y as int),
{
    let side = kernel.side();
    let ghost span: int = 0x7f_8000_0000 * side;
    let mut red: i128 = 0;
    let mut green: i128 = 0;
    let mut blue: i128 = 0;
    let mut row: usize = 0;
    while row < side
        invariant
            row <= side,
            side == kernel@.side(),
            side <= u32::MAX,
            span == 0x7f_8000_0000 * side,
            image.contains(x as int, y as int),
            red == rows_sum(*image, kernel@, x as int, y as int, 0, row as nat),
            green == rows_sum(*image, kernel@, x as int, y as int, 1, row as nat),
            blue == rows_sum(*image, kernel@, x as int, y as int, 2, row as nat),
            -(span * row) <= red <= span * row,
            -(span * row) <= green <= span * row,
            -(span * row) <= blue <= span * row,
        decreases side - row,
    {
        let sums = row_sums(image, kernel, x, y, row);
        proof {
            assert(span * (row + 1) == span * row + span) by (nonlinear_arith);
            assert(span * (row + 1) <= 0x80_0000_0000_0000_0000_0000_0000) by (nonlinear_arith)
                requires
                    0 <= span <= 0x80_0000_0000 * 0x1_0000_0000,
                    0 <= row + 1 <= 0xffff_ffff,
            ;
        }
        red = red + sums.0;
        green = green + sums.1;
        blue = blue + sums.2;
        row += 1;
    }
    let divisor = kernel.divisor();
    (quantize_sum(red, divisor), quantize_sum(green, divisor), quantize_sum(blue, divisor))
}

/// Filters one row of the image, from left to right.
pub fn convolve_row(image: &Image, kernel: &Kernel, y: u32) -> (row: Vec<Color>)
    requires
        y < image_height(*image),
    ensures
        row@ == convolved_row(*image, kernel@, y as int),
{
    let (width, _) = image.dimensions();
    let mut row: Vec<Color> = Vec::new();
    let mut x: u32 = 0;
    while x < width
        invariant
            x <= width,
            width == image_width(*image),
            y < image_height(*image),
            row@.len() == x,
            forall|i: int|
                0 <= i < x ==> #[trigger] row@[i] == convolved_pixel(*image, kernel@, i, y as int),
        decreases width - x,
    {
        row.push(convolve_pixel(image, kernel, x, y));
        x += 1;
    }
    assert(row@ =~= convolved_row(*image, kernel@, y as int));
    row
}

/// Filters the rows of the image on rayon's thread pool: the row indices
/// `0..height` as an indexed parallel iterator (`into_par_iter`), each mapped
/// to its filtered row by `convolve_row` (`map`), gathered with `collect`,
/// which for a vector keeps the order of the indices whatever thread computed
/// which row.
#[verifier::external_body]
fn convolve_rows(image: &Image, kernel: &Kernel, height: u32) -> (rows: Vec<Vec<Color>>)
    requires
        height == image_height(*image),
    ensures
        rows@.len() == height,
        forall|y: int|
            0 <= y < height ==> (#[trigger] rows@[y])@ == convolved_row(*image, kernel@, y),
{
    (0..height).into_par_iter().map(|y| convolve_row(image, kernel, y)).collect()
}

/// Applies a kernel to an image. The result is a new image of the same size;
/// each of its pixels is the weighted sum of the input pixels around it, with
/// coordinates past an edge clamped onto the edge, divided by the kernel's
/// divisor, rounded to the nearest integer and saturated into `0..=255`. The
/// rows are computed in parallel; the result does not depend on how.
pub fn apply_convolution(image: &Image, kernel: &Kernel) -> (output: Image)
    ensures
        image_width(output) == image_width(*image),
        image_height(output) == image_height(*image),
        is_convolution(output, *image, kernel@),
{
    let (width, height) = image.dimensions();
    let rows = convolve_rows(image, kernel, height);
    let mut output = blank_buffer(width, height);
    let mut y: u32 = 0;
    while y < height
        invariant
            y <= height,
            width == image_width(*image),
            height == image_height(*image),
            output.same_size(*image),
            rows@.len() == height,
            forall|b: int|
                0 <= b < height ==> (#[trigger] rows@[b])@ == convolved_row(*image, kernel@, b),
            forall|a: int, b: int|
                0 <= a < width && 0 <= b < y ==> #[trigger] output.pixel(a, b) == convolved_pixel(
                    *image,
                    kernel@,
                    a,
                    b,
                ),
        decreases height - y,
    {
        let row = &rows[y as usize];
        let mut x: u32 = 0;
        while x < width
            invariant
                x <= width,
                y < height,
                width == image_width(*image),
                height == image_height(*image),
                output.same_size(*image),
                row@ == convolved_row(*image, kernel@, y as int),
                forall|a: int, b: int|
                    0 <= a < width && (0 <= b < y || (b == y && a < x))
                        ==> #[trigger] output.pixel(a, b) == convolved_pixel(
                        *image,
                        kernel@,
                        a,
                        b,
                    ),
            decreases width - x,
        {
            let ghost before = output;
            buffer_put_pixel(&mut output, x, y, row[x as usize]);
            assert forall|a: int, b: int|
                0 <= a < width && (0 <= b < y || (b == y && a < x + 1))
                    implies #[trigger] output.pixel(a, b) == convolved_pixel(
                *image,
                kernel@,
                a,
                b,
            ) by {
                if a != x || b != y {
                    assert(output.pixel(a, b) == before.pixel(a, b));
                }
            }
            x += 1;
        }
        y += 1;
    }
    output
}

/// Blurs an image with the box kernel of the requested strength, made odd
/// first: an even strength blurs like the next odd one.
pub fn blur_image(image: &Image, blur_size: usize) -> (output: Image)
    requires
        odd_size(blur_size as nat) <= u32::MAX,
    ensures
        output.same_size(*image),
        is_convolution(output, *image, box_blur_kernel(odd_size(blur_size as nat))),
{
    let size = force_odd(blur_size);
    let kernel = generate_box_blur_kernel(size);
    apply_convolution(image, &kernel)
}

/// Sharpens an image with the fixed 3×3 sharpen kernel.
pub fn sharpen_image(image: &Image) -> (output: Image)
    ensures
        output.same_size(*image),
        is_convolution(output, *image, sharpen_kernel()),
{
    let kernel = generate_sharpen_kernel();
    apply_convolution(image, &kernel)
}

} // verus!
