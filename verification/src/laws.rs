//! What holds of every kernel, every image and every filtered image.

use crate::convolve::{
    clamp_index, convolved_pixel, is_convolution, row_sum, rows_sum, source_pixel, weighted_sum,
};
use crate::kernel::{box_blur_kernel, odd_size, sharpen_kernel, KernelView};
use crate::raster::{channel, image_height, image_width, Color, Image};
use crate::rounding::{lemma_quantize_saturates, lemma_quantize_whole, quantize};
use vstd::prelude::*;

verus! {

/// Every pixel of `img` has the colour `color`.
pub open spec fn is_uniform(img: Image, color: Color) -> bool {
    forall|x: int, y: int| img.contains(x, y) ==> #[trigger] img.pixel(x, y) == color
}

/// Making a size odd gives the smallest odd number that is not below it.
pub proof fn lemma_odd_size_is_next_odd(size: nat)
    ensures
        odd_size(size) % 2 == 1,
        size <= odd_size(size) <= size + 1,
        size % 2 == 1 ==> odd_size(size) == size,
{
}

/// Edge replication: a clamped coordinate always names a pixel, it is the
/// coordinate itself wherever that lies inside the image, and otherwise no
/// pixel is nearer to the coordinate than the one chosen, which lies on the
/// edge.
pub proof fn lemma_clamp_is_nearest_inside(position: int, len: nat)
    requires
        len > 0,
    ensures
        0 <= clamp_index(position, len) < len,
        0 <= position < len ==> clamp_index(position, len) == position,
        position < 0 ==> clamp_index(position, len) == 0,
        position >= len ==> clamp_index(position, len) == len - 1,
        forall|other: int|
            0 <= other < len ==> vstd::math::abs(clamp_index(position, len) - position)
                <= #[trigger] vstd::math::abs(other - position),
{
}

/// Whatever cell of whatever kernel is read, centred anywhere, the sample is
/// a pixel of the image: nothing is read outside it and nothing wraps around.
pub proof fn lemma_samples_stay_inside(
    img: Image,
    k: KernelView,
    x: int,
    y: int,
    col: int,
    row: int,
)
    requires
        image_width(img) > 0,
        image_height(img) > 0,
    ensures
        exists|sx: int, sy: int|
            img.contains(sx, sy) && source_pixel(img, k, x, y, col, row) == #[trigger] img.pixel(
                sx,
                sy,
            ),
{
    let sx = clamp_index(x + col - k.half(), image_width(img));
    let sy = clamp_index(y + row - k.half(), image_height(img));
    assert(img.contains(sx, sy) && source_pixel(img, k, x, y, col, row) == img.pixel(sx, sy));
}

proof fn lemma_box_row_total(size: nat, row: int, cols: nat)
    requires
        0 <= row < size,
        cols <= size,
    ensures
        box_blur_kernel(size).row_total(row, cols) == cols,
    decreases cols,
{
    if cols > 0 {
        lemma_box_row_total(size, row, (cols - 1) as nat);
    }
}

proof fn lemma_box_rows_total(size: nat, rows: nat)
    requires
        rows <= size,
    ensures
        box_blur_kernel(size).rows_total(rows) == rows * size,
    decreases rows,
{
    if rows > 0 {
        lemma_box_rows_total(size, (rows - 1) as nat);
        lemma_box_row_total(size, rows - 1, size);
        assert((rows - 1) * size + size == rows * size) by (nonlinear_arith);
    }
}

/// The box-blur kernel of any odd side is a well-formed kernel of that side
/// whose cells all hold the same integer, and its weights sum to exactly one:
/// the cells add up to the divisor.
pub proof fn lemma_box_blur_kernel_is_normalized(size: nat)
    requires
        size % 2 == 1,
    ensures
        box_blur_kernel(size).wf(),
        box_blur_kernel(size).side() == size,
        forall|col: int, row: int|
            0 <= col < size && 0 <= row < size ==> #[trigger] box_blur_kernel(size).weight(col, row)
                == box_blur_kernel(size).weight(0, 0),
        box_blur_kernel(size).total() == box_blur_kernel(size).divisor,
{
    assert(size * size > 0) by (nonlinear_arith)
        requires
            size > 0,
    ;
    lemma_box_rows_total(size, size);
}

/// The sharpen kernel is a well-formed 3×3 kernel whose weights sum to
/// exactly one.
pub proof fn lemma_sharpen_kernel_is_normalized()
    ensures
        sharpen_kernel().wf(),
        sharpen_kernel().side() == 3,
        sharpen_kernel().total() == 1,
        sharpen_kernel().divisor == 1,
{
    let k = sharpen_kernel();
    reveal_with_fuel(KernelView::row_total, 4);
    reveal_with_fuel(KernelView::rows_total, 4);
    assert(k.row_total(0, 3) == -1);
    assert(k.row_total(1, 3) == 3);
    assert(k.row_total(2, 3) == -1);
}

proof fn lemma_uniform_row_sum(
    img: Image,
    k: KernelView,
    color: Color,
    x: int,
    y: int,
    index: int,
    row: int,
    cols: nat,
)
    requires
        image_width(img) > 0,
        image_height(img) > 0,
        is_uniform(img, color),
    ensures
        row_sum(img, k, x, y, index, row, cols) == channel(color, index) * k.row_total(row, cols),
    decreases cols,
{
    if cols > 0 {
        lemma_uniform_row_sum(img, k, color, x, y, index, row, (cols - 1) as nat);
        let sx = clamp_index(x + (cols - 1) - k.half(), image_width(img));
        let sy = clamp_index(y + row - k.half(), image_height(img));
        assert(img.contains(sx, sy));
        assert(source_pixel(img, k, x, y, cols - 1, row) == img.pixel(sx, sy));
        let level = channel(color, index);
        let before = k.row_total(row, (cols - 1) as nat);
        let weight = k.weight(cols - 1, row);
        assert(level * before + weight * level == level * (before + weight)) by (nonlinear_arith);
    }
}

proof fn lemma_uniform_rows_sum(
    img: Image,
    k: KernelView,
    color: Color,
    x: int,
    y: int,
    index: int,
    rows: nat,
)
    requires
        image_width(img) > 0,
        image_height(img) > 0,
        is_uniform(img, color),
    ensures
        rows_sum(img, k, x, y, index, rows) == channel(color, index) * k.rows_total(rows),
    decreases rows,
{
    if rows > 0 {
        lemma_uniform_rows_sum(img, k, color, x, y, index, (rows - 1) as nat);
        lemma_uniform_row_sum(img, k, color, x, y, index, rows - 1, k.side());
        let level = channel(color, index);
        let before = k.rows_total((rows - 1) as nat);
        let last = k.row_total(rows - 1, k.side());
        assert(level * before + level * last == level * (before + last)) by (nonlinear_arith);
    }
}

/// On an image of one colour every weighted sum is that colour's channel
/// value times the sum of the kernel's cells, wherever the kernel is centred:
/// samples past an edge reuse the edge pixel.
pub proof fn lemma_uniform_weighted_sum(
    img: Image,
    k: KernelView,
    color: Color,
    x: int,
    y: int,
    index: int,
)
    requires
        image_width(img) > 0,
        image_height(img) > 0,
        is_uniform(img, color),
    ensures
        weighted_sum(img, k, x, y, index) == channel(color, index) * k.total(),
{
    lemma_uniform_rows_sum(img, k, color, x, y, index, k.side());
}

/// Filtering with the 1×1 kernel of weight one changes nothing: each pixel
/// of the result is the pixel of the input at the same place.
pub proof fn lemma_identity_kernel(img: Image, k: KernelView, x: int, y: int)
    requires
        k.wf(),
        k.side() == 1,
        k.weight(0, 0) == k.divisor,
        img.contains(x, y),
    ensures
        convolved_pixel(img, k, x, y) == img.pixel(x, y),
{
    let color = img.pixel(x, y);
    reveal_with_fuel(row_sum, 2);
    reveal_with_fuel(rows_sum, 2);
    assert(source_pixel(img, k, x, y, 0, 0) == color);
    assert forall|index: int| #[trigger]
        quantize(weighted_sum(img, k, x, y, index), k.divisor) == channel(color, index) by {
        let level = channel(color, index);
        assert(weighted_sum(img, k, x, y, index) == k.divisor * level);
        assert(k.divisor * level == level * k.divisor) by (nonlinear_arith);
        lemma_quantize_whole(level as u8, k.divisor);
    }
    assert(quantize(weighted_sum(img, k, x, y, 0), k.divisor) == channel(color, 0));
    assert(quantize(weighted_sum(img, k, x, y, 1), k.divisor) == channel(color, 1));
    assert(quantize(weighted_sum(img, k, x, y, 2), k.divisor) == channel(color, 2));
}

/// Brightness is preserved: a kernel whose weights sum to one maps an image of
/// one colour to that same colour at every pixel, exactly.
pub proof fn lemma_uniform_image_is_preserved(
    img: Image,
    k: KernelView,
    color: Color,
    x: int,
    y: int,
)
    requires
        k.wf(),
        k.total() == k.divisor,
        is_uniform(img, color),
        img.contains(x, y),
    ensures
        convolved_pixel(img, k, x, y) == color,
{
    lemma_uniform_weighted_sum(img, k, color, x, y, 0);
    lemma_uniform_weighted_sum(img, k, color, x, y, 1);
    lemma_uniform_weighted_sum(img, k, color, x, y, 2);
    lemma_quantize_whole(color.0, k.divisor);
    lemma_quantize_whole(color.1, k.divisor);
    lemma_quantize_whole(color.2, k.divisor);
}

/// A box blur of any odd side maps an image of one colour to that colour.
pub proof fn lemma_box_blur_preserves_uniform_image(
    img: Image,
    size: nat,
    color: Color,
    x: int,
    y: int,
)
    requires
        size % 2 == 1,
        is_uniform(img, color),
        img.contains(x, y),
    ensures
        convolved_pixel(img, box_blur_kernel(size), x, y) == color,
{
    lemma_box_blur_kernel_is_normalized(size);
    lemma_uniform_image_is_preserved(img, box_blur_kernel(size), color, x, y);
}

/// An image of a single pixel filters to that pixel's colour scaled by the
/// sum of the kernel's weights, rounded and saturated, however far the kernel
/// reaches past the image: every sample falls back on the one pixel.
pub proof fn lemma_single_pixel_image(img: Image, k: KernelView)
    requires
        k.wf(),
        image_width(img) == 1,
        image_height(img) == 1,
    ensures
        convolved_pixel(img, k, 0, 0) == (
            quantize(img.pixel(0, 0).0 * k.total(), k.divisor),
            quantize(img.pixel(0, 0).1 * k.total(), k.divisor),
            quantize(img.pixel(0, 0).2 * k.total(), k.divisor),
        ),
{
    let color = img.pixel(0, 0);
    assert(is_uniform(img, color));
    lemma_uniform_weighted_sum(img, k, color, 0, 0, 0);
    lemma_uniform_weighted_sum(img, k, color, 0, 0, 1);
    lemma_uniform_weighted_sum(img, k, color, 0, 0, 2);
}

/// Filtering is a function of the image and the kernel alone: two results for
/// the same inputs, however their rows were scheduled, agree in size and in
/// every pixel.
pub proof fn lemma_convolution_is_deterministic(
    first: Image,
    second: Image,
    img: Image,
    k: KernelView,
)
    requires
        is_convolution(first, img, k),
        is_convolution(second, img, k),
    ensures
        first.same_size(second),
        forall|x: int, y: int|
            img.contains(x, y) ==> #[trigger] first.pixel(x, y) == second.pixel(x, y),
{
    assert forall|x: int, y: int| img.contains(x, y) implies #[trigger] first.pixel(x, y)
        == second.pixel(x, y) by {
        assert(first.pixel(x, y) == convolved_pixel(img, k, x, y));
        assert(second.pixel(x, y) == convolved_pixel(img, k, x, y));
    }
}

/// Saturation: where the weighted sum of a channel reaches 255 times the
/// divisor or more, the channel of the result is 255, and where it is zero or
/// less, the channel is 0. No sum, however large, wraps around.
pub proof fn lemma_convolution_saturates(img: Image, k: KernelView, x: int, y: int, index: int)
    requires
        k.wf(),
        0 <= index < 3,
    ensures
        weighted_sum(img, k, x, y, index) >= 255 * k.divisor ==> channel(
            convolved_pixel(img, k, x, y),
            index,
        ) == 255,
        weighted_sum(img, k, x, y, index) <= 0 ==> channel(convolved_pixel(img, k, x, y), index)
            == 0,
{
    lemma_quantize_saturates(weighted_sum(img, k, x, y, index), k.divisor);
}

/// A white image stays white under every kernel whose weights sum to one or
/// more.
pub proof fn lemma_white_image_saturates(img: Image, k: KernelView, x: int, y: int)
    requires
        k.wf(),
        k.total() >= k.divisor,
        is_uniform(img, (255u8, 255u8, 255u8)),
        img.contains(x, y),
    ensures
        convolved_pixel(img, k, x, y) == (255u8, 255u8, 255u8),
{
    let white: Color = (255u8, 255u8, 255u8);
    lemma_uniform_weighted_sum(img, k, white, x, y, 0);
    lemma_uniform_weighted_sum(img, k, white, x, y, 1);
    lemma_uniform_weighted_sum(img, k, white, x, y, 2);
    lemma_convolution_saturates(img, k, x, y, 0);
    lemma_convolution_saturates(img, k, x, y, 1);
    lemma_convolution_saturates(img, k, x, y, 2);
}

} // verus!
