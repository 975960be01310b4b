//! Which pixel is which, and the order in which they leave.
//!
//! A pixel is numbered `y * image_width + x`, with `x` counted from the left
//! and `y` from the bottom of the image. The image is written row by row from
//! the top, each row from the left: that is the raster order. Pixels may be
//! worked out in any order and by many workers; before they are written they
//! are put in raster order.

use vstd::prelude::*;
use vstd::arithmetic::div_mod::{lemma_fundamental_div_mod, lemma_fundamental_div_mod_converse};

verus! {

/// The place in raster order of the pixel numbered `pixel`, which is also
/// the number of the pixel at the place `pixel`: the rows are mirrored, the
/// columns stay.
pub open spec fn raster_place(pixel: int, image_width: int, image_height: int) -> int {
    (image_height - 1 - pixel / image_width) * image_width + pixel % image_width
}

/// Whether `pixels` holds each of the pixels numbered below `count` once and
/// nothing else.
pub open spec fn is_complete<T>(pixels: Seq<(usize, T)>, count: int) -> bool {
    &&& pixels.len() == count
    &&& forall|i: int| 0 <= i < pixels.len() ==> (#[trigger] pixels[i]).0 < count
    &&& forall|i: int, j: int|
        0 <= i < j < pixels.len() ==> (#[trigger] pixels[i]).0 != (#[trigger] pixels[j]).0
}

/// Whether `value` is what came with the pixel numbered `number`.
pub open spec fn came_with<T>(pixels: Seq<(usize, T)>, number: int, value: T) -> bool {
    exists|i: int| 0 <= i < pixels.len() && (#[trigger] pixels[i]).0 == number && pixels[i].1 == value
}

/// How many of the slots are filled.
spec fn filled<T>(slots: Seq<Option<T>>) -> nat
    decreases slots.len(),
{
    if slots.len() == 0 {
        0
    } else {
        filled(slots.drop_last()) + if slots.last() is Some {
            1nat
        } else {
            0nat
        }
    }
}

/// A pixel of the image has a column and a row within it, and its place in
/// raster order is within the image too.
pub proof fn lemma_raster_place_within(pixel: int, image_width: int, image_height: int)
    requires
        0 <= pixel < image_width * image_height,
        0 < image_width,
    ensures
        0 <= pixel % image_width < image_width,
        0 <= pixel / image_width < image_height,
        pixel == (pixel / image_width) * image_width + pixel % image_width,
        0 <= raster_place(pixel, image_width, image_height) < image_width * image_height,
        raster_place(pixel, image_width, image_height) / image_width == image_height - 1 - pixel
            / image_width,
        raster_place(pixel, image_width, image_height) % image_width == pixel % image_width,
{
    let x = pixel % image_width;
    let y = pixel / image_width;
    lemma_fundamental_div_mod(pixel, image_width);
    assert(pixel == y * image_width + x) by (nonlinear_arith)
        requires
            pixel == image_width * y + x,
    ;
    assert(0 <= y < image_height) by (nonlinear_arith)
        requires
            pixel == y * image_width + x,
            0 <= x < image_width,
            0 <= pixel < image_width * image_height,
    ;
    let row = image_height - 1 - y;
    assert(0 <= row * image_width + x < image_width * image_height) by (nonlinear_arith)
        requires
            0 <= row <= image_height - 1,
            0 <= x < image_width,
    ;
    lemma_fundamental_div_mod_converse(row * image_width + x, image_width, row, x);
}

/// Putting a pixel in its place twice puts it back: the place of the pixel
/// numbered `pixel` holds that pixel, and no other pixel shares it.
pub proof fn lemma_raster_place_mirrors(pixel: int, image_width: int, image_height: int)
    requires
        0 <= pixel < image_width * image_height,
        0 < image_width,
    ensures
        raster_place(
            raster_place(pixel, image_width, image_height),
            image_width,
            image_height,
        ) == pixel,
{
    lemma_raster_place_within(pixel, image_width, image_height);
}

proof fn lemma_filled_bound<T>(slots: Seq<Option<T>>)
    ensures
        filled(slots) <= slots.len(),
    decreases slots.len(),
{
    if slots.len() > 0 {
        lemma_filled_bound(slots.drop_last());
    }
}

proof fn lemma_filled_one_more<T>(slots: Seq<Option<T>>, place: int, value: T)
    requires
        0 <= place < slots.len(),
        slots[place] is None,
    ensures
        filled(slots.update(place, Some(value))) == filled(slots) + 1,
    decreases slots.len(),
{
    let after = slots.update(place, Some(value));
    if place == slots.len() - 1 {
        assert(after.drop_last() == slots.drop_last());
    } else {
        assert(after.drop_last() == slots.drop_last().update(place, Some(value)));
        lemma_filled_one_more(slots.drop_last(), place, value);
    }
}

proof fn lemma_filled_none<T>(slots: Seq<Option<T>>)
    requires
        forall|k: int| 0 <= k < slots.len() ==> slots[k] is None,
    ensures
        filled(slots) == 0,
    decreases slots.len(),
{
    if slots.len() > 0 {
        lemma_filled_none(slots.drop_last());
    }
}

proof fn lemma_filled_all<T>(slots: Seq<Option<T>>)
    requires
        filled(slots) == slots.len(),
    ensures
        forall|k: int| 0 <= k < slots.len() ==> slots[k] is Some,
    decreases slots.len(),
{
    if slots.len() > 0 {
        lemma_filled_bound(slots.drop_last());
        lemma_filled_all(slots.drop_last());
        assert forall|k: int| 0 <= k < slots.len() implies slots[k] is Some by {
            if k < slots.len() - 1 {
                assert(slots.drop_last()[k] == slots[k]);
            }
        }
    }
}

/// The column and the row of the pixel numbered `pixel`, the column first.
pub fn pixel_position(pixel: usize, image_width: usize) -> (position: (usize, usize))
    requires
        image_width > 0,
    ensures
        position.0 == pixel % image_width,
        position.1 == pixel / image_width,
        position.1 * image_width + position.0 == pixel,
        position.0 < image_width,
{
    proof {
        lemma_fundamental_div_mod(pixel as int, image_width as int);
        assert((pixel / image_width) * image_width == image_width * (pixel / image_width))
            by (nonlinear_arith);
    }
    (pixel % image_width, pixel / image_width)
}

/// The number of the pixel in column `x` and row `y`, where the image holds
/// it and the number of its pixels can be counted.
pub fn pixel_number(x: usize, y: usize, image_width: usize, image_height: usize) -> (pixel: Option<
    usize,
>)
    ensures
        pixel is Some <==> x < image_width && y < image_height && image_width * image_height
            <= usize::MAX,
        pixel matches Some(number) ==> number == y * image_width + x && number < image_width
            * image_height,
{
    if x >= image_width || y >= image_height {
        return None;
    }
    match image_width.checked_mul(image_height) {
        None => None,
        Some(count) => {
            proof {
                assert(y * image_width + x < image_width * image_height) by (nonlinear_arith)
                    requires
                        0 <= x < image_width,
                        0 <= y < image_height,
                ;
                assert(0 <= y * image_width) by (nonlinear_arith)
                    requires
                        0 <= y,
                        0 <= image_width,
                ;
            }
            Some(y * image_width + x)
        },
    }
}

/// The numbers of the pixels in raster order: the top row first, each row
/// from the left. `None` where the image has more pixels than can be
/// counted.
pub fn raster_order(image_height: usize, image_width: usize) -> (order: Option<Vec<usize>>)
    ensures
        order is Some <==> image_width * image_height <= usize::MAX,
        order matches Some(numbers) ==> numbers@.len() == image_width * image_height && forall|
            place: int,
        |
            0 <= place < numbers@.len() ==> #[trigger] numbers@[place] == raster_place(
                place,
                image_width as int,
                image_height as int,
            ),
        order matches Some(numbers) ==> forall|pixel: int|
            0 <= pixel < numbers@.len() ==> numbers@[#[trigger] raster_place(
                pixel,
                image_width as int,
                image_height as int,
            )] == pixel,
{
    let count: usize = match image_width.checked_mul(image_height) {
        None => {
            return None;
        },
        Some(count) => count,
    };
    let mut numbers: Vec<usize> = Vec::new();
    let mut place: usize = 0;
    while place < count
        invariant
            count == image_width * image_height,
            place <= count,
            numbers@.len() == place,
            forall|k: int|
                0 <= k < place ==> #[trigger] numbers@[k] == raster_place(
                    k,
                    image_width as int,
                    image_height as int,
                ),
        decreases count - place,
    {
        proof {
            assert(image_width > 0) by (nonlinear_arith)
                requires
                    place < image_width * image_height,
                    image_width >= 0,
            ;
            lemma_raster_place_within(place as int, image_width as int, image_height as int);
        }
        let number: usize = mirrored(place, image_width, image_height);
        numbers.push(number);
        place = place + 1;
    }
    proof {
        assert forall|pixel: int| 0 <= pixel < numbers@.len() implies numbers@[#[trigger] raster_place(
            pixel,
            image_width as int,
            image_height as int,
        )] == pixel by {
            assert(image_width > 0) by (nonlinear_arith)
                requires
                    pixel < image_width * image_height,
                    pixel >= 0,
                    image_width >= 0,
            ;
            lemma_raster_place_within(pixel, image_width as int, image_height as int);
            lemma_raster_place_mirrors(pixel, image_width as int, image_height as int);
        }
    }
    Some(numbers)
}

/// The place in raster order of the pixel numbered `pixel`.
fn mirrored(pixel: usize, image_width: usize, image_height: usize) -> (place: usize)
    requires
        image_width > 0,
        pixel < image_width * image_height <= usize::MAX,
    ensures
        place == raster_place(pixel as int, image_width as int, image_height as int),
        place < image_width * image_height,
{
    proof {
        lemma_raster_place_within(pixel as int, image_width as int, image_height as int);
        let row = image_height - 1 - pixel / image_width;
        assert(0 <= row * image_width <= row * image_width + pixel % image_width)
            by (nonlinear_arith)
            requires
                0 <= row,
                0 <= image_width,
                0 <= pixel % image_width,
        ;
    }
    let row: usize = image_height - 1 - pixel / image_width;
    row * image_width + pixel % image_width
}

/// Puts finished pixels in raster order. Each comes with its number; they
/// may come in any order. The answer holds, place by place in raster order,
/// what came with the pixel that belongs there. There is an answer exactly
/// where each pixel of the image came once and nothing else did.
pub fn arrange<T: Copy>(image_height: usize, image_width: usize, pixels: &Vec<(usize, T)>) -> (raster:
    Option<Vec<T>>)
    ensures
        raster is Some <==> is_complete(pixels@, image_width * image_height),
        raster matches Some(ordered) ==> ordered@.len() == pixels@.len() && forall|i: int|
            0 <= i < pixels@.len() ==> ordered@[raster_place(
                (#[trigger] pixels@[i]).0 as int,
                image_width as int,
                image_height as int,
            )] == pixels@[i].1,
        raster matches Some(ordered) ==> forall|place: int|
            0 <= place < ordered@.len() ==> came_with(
                pixels@,
                raster_place(place, image_width as int, image_height as int),
                #[trigger] ordered@[place],
            ),
{
    let held: usize = pixels.len();
    let count: usize = match image_width.checked_mul(image_height) {
        None => {
            return None;
        },
        Some(count) => count,
    };
    if held != count {
        return None;
    }
    if count == 0 {
        return Some(Vec::new());
    }
    proof {
        assert(image_width > 0) by (nonlinear_arith)
            requires
                0 < image_width * image_height,
                image_width >= 0,
        ;
    }
    let mut slots: Vec<Option<T>> = Vec::new();
    let mut made: usize = 0;
    while made < count
        invariant
            made <= count,
            slots@.len() == made,
            forall|k: int| 0 <= k < made ==> slots@[k] is None,
        decreases count - made,
    {
        slots.push(None);
        made = made + 1;
    }
    proof {
        lemma_filled_none(slots@);
    }
    let mut taken: usize = 0;
    while taken < count
        invariant
            image_width > 0,
            count == image_width * image_height,
            pixels@.len() == count,
            slots@.len() == count,
            taken <= count,
            filled(slots@) == taken,
            forall|i: int| 0 <= i < taken ==> (#[trigger] pixels@[i]).0 < count,
            forall|i: int|
                0 <= i < taken ==> slots@[raster_place(
                    (#[trigger] pixels@[i]).0 as int,
                    image_width as int,
                    image_height as int,
                )] == Some(pixels@[i].1),
            forall|k: int|
                0 <= k < count && slots@[k] is Some ==> exists|i: int|
                    0 <= i < taken && raster_place(
                        (#[trigger] pixels@[i]).0 as int,
                        image_width as int,
                        image_height as int,
                    ) == k,
            forall|i: int, j: int|
                0 <= i < j < taken ==> (#[trigger] pixels@[i]).0 != (#[trigger] pixels@[j]).0,
        decreases count - taken,
    {
        let number: usize = pixels[taken].0;
        let value: T = pixels[taken].1;
        if number >= count {
            return None;
        }
        let place: usize = mirrored(number, image_width, image_height);
        if slots[place].is_some() {
            proof {
                let i = choose|i: int|
                    0 <= i < taken && raster_place(
                        (#[trigger] pixels@[i]).0 as int,
                        image_width as int,
                        image_height as int,
                    ) == place;
                lemma_raster_place_mirrors(
                    pixels@[i].0 as int,
                    image_width as int,
                    image_height as int,
                );
                lemma_raster_place_mirrors(number as int, image_width as int, image_height as int);
                assert(pixels@[i].0 == pixels@[taken as int].0);
            }
            return None;
        }
        proof {
            lemma_filled_one_more(slots@, place as int, value);
            assert forall|i: int| 0 <= i < taken implies (#[trigger] pixels@[i]).0 != number by {
            }
        }
        let ghost before = slots@;
        slots.set(place, Some(value));
        proof {
            assert forall|i: int| 0 <= i < taken + 1 implies slots@[raster_place(
                (#[trigger] pixels@[i]).0 as int,
                image_width as int,
                image_height as int,
            )] == Some(pixels@[i].1) by {
                lemma_raster_place_within(
                    pixels@[i].0 as int,
                    image_width as int,
                    image_height as int,
                );
            }
            assert forall|k: int| 0 <= k < count && slots@[k] is Some implies exists|i: int|
                0 <= i < taken + 1 && raster_place(
                    (#[trigger] pixels@[i]).0 as int,
                    image_width as int,
                    image_height as int,
                ) == k by {
                if k == place {
                    assert(raster_place(
                        pixels@[taken as int].0 as int,
                        image_width as int,
                        image_height as int,
                    ) == k);
                } else {
                    assert(before[k] is Some);
                    let i = choose|i: int|
                        0 <= i < taken && raster_place(
                            (#[trigger] pixels@[i]).0 as int,
                            image_width as int,
                            image_height as int,
                        ) == k;
                    assert(0 <= i < taken + 1);
                }
            }
        }
        taken = taken + 1;
    }
    proof {
        lemma_filled_all(slots@);
    }
    let mut ordered: Vec<T> = Vec::new();
    let mut place: usize = 0;
    while place < count
        invariant
            place <= count,
            slots@.len() == count,
            ordered@.len() == place,
            forall|k: int| 0 <= k < count ==> slots@[k] is Some,
            forall|k: int| 0 <= k < place ==> Some(#[trigger] ordered@[k]) == slots@[k],
        decreases count - place,
    {
        match slots[place] {
            Some(value) => {
                ordered.push(value);
            },
            None => {
                assert(false);
            },
        }
        place = place + 1;
    }
    proof {
        assert forall|i: int| 0 <= i < pixels@.len() implies ordered@[raster_place(
            (#[trigger] pixels@[i]).0 as int,
            image_width as int,
            image_height as int,
        )] == pixels@[i].1 by {
            lemma_raster_place_within(
                pixels@[i].0 as int,
                image_width as int,
                image_height as int,
            );
        }
        assert forall|place: int| 0 <= place < ordered@.len() implies came_with(
            pixels@,
            raster_place(place, image_width as int, image_height as int),
            #[trigger] ordered@[place],
        ) by {
            assert(slots@[place] is Some);
            let i = choose|i: int|
                0 <= i < count && raster_place(
                    (#[trigger] pixels@[i]).0 as int,
                    image_width as int,
                    image_height as int,
                ) == place;
            lemma_raster_place_mirrors(pixels@[i].0 as int, image_width as int, image_height as int);
            assert(Some(ordered@[place]) == slots@[place]);
        }
    }
    Some(ordered)
}

} // verus!
