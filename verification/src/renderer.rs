//! From colours to the pixel buffer.

use vstd::prelude::*;
use rayon::prelude::IntoParallelIterator;
use rayon::prelude::ParallelIterator;
use crate::scalar::byte_of_key;
use crate::vec3::Color;

verus! {

/// The column of the pixel at a place of the buffer.
pub open spec fn column_of(place: int, width: int) -> int {
    place % width
}

/// The row of the pixel at a place of the buffer, counted upwards from the
/// bottom of the image: the buffer starts with the top row.
pub open spec fn row_of(place: int, width: int, height: int) -> int {
    height - 1 - place / width
}

/// Three bytes of the buffer, from `3 * place` on, are the channels of
/// `color` cut to bytes.
pub open spec fn shows(pixels: Seq<u8>, place: int, color: Color) -> bool {
    &&& pixels[3 * place] == byte_of_key(color.x@)
    &&& pixels[3 * place + 1] == byte_of_key(color.y@)
    &&& pixels[3 * place + 2] == byte_of_key(color.z@)
}

/// The pixel at a place of the buffer is a colour that `shade` gives for the
/// pixel's column and row.
pub open spec fn painted<S: Fn(usize, usize) -> Color>(
    pixels: Seq<u8>,
    shade: S,
    width: usize,
    height: usize,
    place: int,
) -> bool {
    exists|color: Color|
        {
            &&& shade.ensures(
                (
                    column_of(place, width as int) as usize,
                    row_of(place, width as int, height as int) as usize,
                ),
                color,
            )
            &&& #[trigger] shows(pixels, place, color)
        }
}

/// `pixels` is an image of `width` by `height` pixels as `shade` paints it:
/// packed RGB triples, row after row from the top, each row from the left,
/// and each triple a colour that `shade` gives for that pixel.
pub open spec fn is_rendering<S: Fn(usize, usize) -> Color>(
    pixels: Seq<u8>,
    shade: S,
    width: usize,
    height: usize,
) -> bool {
    &&& pixels.len() == 3 * width * height
    &&& forall|place: int|
        0 <= place < width * height ==> #[trigger] painted(pixels, shade, width, height, place)
}

/// Applies `paint` to every index below `count` on rayon's worker threads:
/// the range of indices is turned into a parallel iterator with
/// `rayon::iter::IntoParallelIterator::into_par_iter`, mapped with
/// `rayon::iter::ParallelIterator::map` and gathered with
/// `rayon::iter::ParallelIterator::collect`. Claimed of rayon is that the
/// vector holds one result for every index, each a result of `paint` for
/// that index, in the order of the indices, whichever thread worked it out.
#[verifier::external_body]
fn paint_in_parallel<P>(count: usize, paint: P) -> (colors: Vec<Color>)
    where P: Fn(usize) -> Color + Sync + Send
    requires
        forall|place: usize| place < count ==> paint.requires((place,)),
    ensures
        colors@.len() == count,
        forall|place: usize| place < count ==> paint.ensures((place,), #[trigger] colors@[place as int]),
{
    (0..count).into_par_iter().map(paint).collect()
}

/// A pixel's place lies in the image.
proof fn place_lies_in_image(place: int, width: int, height: int)
    requires
        0 <= place < width * height,
        0 <= width,
        0 <= height,
    ensures
        0 < width,
        0 <= place % width < width,
        0 <= place / width < height,
        0 <= height - 1 - place / width < height,
{
    assert(width > 0) by (nonlinear_arith)
        requires
            0 <= place < width * height,
            0 <= width,
    ;
    assert(place / width < height) by (nonlinear_arith)
        requires
            0 <= place < width * height,
            0 < width,
    ;
    assert(0 <= place / width) by (nonlinear_arith)
        requires
            0 <= place,
            0 < width,
    ;
}

/// Renders an image: every pixel is painted by `shade`, in parallel, and
/// its three channels are cut to bytes. `shade` is asked for the pixel in
/// column `x` and row `y`, rows counted from the bottom, and answers with
/// the pixel's colour on the scale from 0 to 256.
pub fn render<S>(shade: &S, width: usize, height: usize) -> (pixels: Vec<u8>)
    where S: Fn(usize, usize) -> Color + Sync
    requires
        forall|x: usize, y: usize| x < width && y < height ==> shade.requires((x, y)),
        3 * width * height <= usize::MAX,
    ensures
        is_rendering(pixels@, *shade, width, height),
{
    assert(width * height <= 3 * width * height) by (nonlinear_arith);
    assert(0 <= width * height) by (nonlinear_arith);
    assert(3 * width * height == 3 * (width * height)) by (nonlinear_arith);
    let count: usize = width * height;
    let paint = |place: usize| -> (color: Color)
        requires
            place < width * height,
            forall|x: usize, y: usize| x < width && y < height ==> shade.requires((x, y)),
        ensures
            shade.ensures(
                (
                    column_of(place as int, width as int) as usize,
                    row_of(place as int, width as int, height as int) as usize,
                ),
                color,
            ),
        {
            proof {
                place_lies_in_image(place as int, width as int, height as int);
            }
            shade(place % width, height - 1 - place / width)
        };
    let colors = paint_in_parallel(count, paint);
    let mut pixels: Vec<u8> = Vec::new();
    let mut place: usize = 0;
    while place < count
        invariant
            place <= count,
            count == width * height,
            3 * count <= usize::MAX,
            colors@.len() == count,
            pixels@.len() == 3 * place,
            forall|p: int| 0 <= p < place ==> #[trigger] shows(pixels@, p, colors@[p]),
        decreases count - place,
    {
        let color = colors[place];
        let ghost before = pixels@;
        pixels.push(color.x.truncate_to_byte());
        pixels.push(color.y.truncate_to_byte());
        pixels.push(color.z.truncate_to_byte());
        proof {
            assert forall|p: int| 0 <= p < place + 1 implies #[trigger] shows(
                pixels@,
                p,
                colors@[p],
            ) by {
                if p < place {
                    assert(shows(before, p, colors@[p]));
                    assert(pixels@[3 * p] == before[3 * p]);
                    assert(pixels@[3 * p + 1] == before[3 * p + 1]);
                    assert(pixels@[3 * p + 2] == before[3 * p + 2]);
                }
            }
        }
        place = place + 1;
    }
    proof {
        assert(3 * width * height == 3 * (width * height)) by (nonlinear_arith);
        assert forall|p: int| 0 <= p < width * height implies #[trigger] painted(
            pixels@,
            *shade,
            width,
            height,
            p,
        ) by {
            assert(paint.ensures((p as usize,), colors@[p]));
            assert(shows(pixels@, p, colors@[p]));
        }
    }
    pixels
}

/// Rendering is repeatable: where `shade` gives one colour for each pixel,
/// any two images that it paints are the same, byte for byte.
pub proof fn rendering_is_repeatable<S: Fn(usize, usize) -> Color>(
    first: Seq<u8>,
    second: Seq<u8>,
    shade: S,
    width: usize,
    height: usize,
)
    requires
        is_rendering(first, shade, width, height),
        is_rendering(second, shade, width, height),
        forall|x: usize, y: usize, a: Color, b: Color|
            shade.ensures((x, y), a) && shade.ensures((x, y), b) ==> a == b,
    ensures
        first == second,
{
    assert(3 * width * height == 3 * (width * height)) by (nonlinear_arith);
    assert forall|i: int| 0 <= i < first.len() implies first[i] == second[i] by {
        let place = i / 3;
        assert(painted(first, shade, width, height, place));
        assert(painted(second, shade, width, height, place));
        let a = choose|color: Color|
            {
                &&& shade.ensures(
                    (
                        column_of(place, width as int) as usize,
                        row_of(place, width as int, height as int) as usize,
                    ),
                    color,
                )
                &&& #[trigger] shows(first, place, color)
            };
        let b = choose|color: Color|
            {
                &&& shade.ensures(
                    (
                        column_of(place, width as int) as usize,
                        row_of(place, width as int, height as int) as usize,
                    ),
                    color,
                )
                &&& #[trigger] shows(second, place, color)
            };
        assert(a == b);
    }
    assert(first =~= second);
}

} // verus!
