use path_tracer::rendering::scheduler::{arrange, pixel_number, pixel_position, raster_order};

#[test]
fn pixel_position_is_column_and_row() {
    assert_eq!(pixel_position(0, 40), (0, 0));
    assert_eq!(pixel_position(39, 40), (39, 0));
    assert_eq!(pixel_position(40, 40), (0, 1));
    assert_eq!(pixel_position(7, 3), (1, 2));
    assert_eq!(pixel_position(1920 * 821 + 5, 1920), (5, 821));
    assert_eq!(pixel_position(usize::MAX, 1), (0, usize::MAX));
    assert_eq!(pixel_position(9, usize::MAX), (9, 0));
}

#[test]
fn pixel_number_counts_rows_then_columns() {
    assert_eq!(pixel_number(0, 0, 40, 22), Some(0));
    assert_eq!(pixel_number(39, 21, 40, 22), Some(879));
    assert_eq!(pixel_number(1, 2, 3, 4), Some(7));
    assert_eq!(pixel_number(3, 2, 3, 4), None);
    assert_eq!(pixel_number(1, 4, 3, 4), None);
    assert_eq!(pixel_number(0, 0, 0, 0), None);
    assert_eq!(pixel_number(1, 1, usize::MAX, 2), None);
    assert_eq!(pixel_number(5, 0, usize::MAX, 1), Some(5));
}

#[test]
fn pixel_number_and_position_undo_each_other() {
    for pixel in 0..(7 * 5) {
        let (x, y) = pixel_position(pixel, 7);
        assert_eq!(pixel_number(x, y, 7, 5), Some(pixel));
    }
}

#[test]
fn raster_order_starts_with_the_top_row() {
    assert_eq!(raster_order(2, 3), Some(vec![3, 4, 5, 0, 1, 2]));
    assert_eq!(raster_order(3, 2), Some(vec![4, 5, 2, 3, 0, 1]));
    assert_eq!(raster_order(1, 4), Some(vec![0, 1, 2, 3]));
    assert_eq!(raster_order(4, 1), Some(vec![3, 2, 1, 0]));
    assert_eq!(raster_order(1, 1), Some(vec![0]));
}

#[test]
fn raster_order_of_an_empty_image_is_empty() {
    assert_eq!(raster_order(0, 0), Some(vec![]));
    assert_eq!(raster_order(0, 5), Some(vec![]));
    assert_eq!(raster_order(5, 0), Some(vec![]));
    assert_eq!(raster_order(0, usize::MAX), Some(vec![]));
}

#[test]
fn raster_order_needs_a_countable_image() {
    assert_eq!(raster_order(usize::MAX, 2), None);
    assert_eq!(raster_order(2, usize::MAX), None);
    assert_eq!(raster_order(usize::MAX, usize::MAX), None);
}

#[test]
fn raster_order_goes_down_the_rows_and_along_the_columns() {
    let width = 40;
    let height = 22;
    let order = raster_order(height, width).unwrap();
    assert_eq!(order.len(), width * height);
    let mut place = 0;
    for row in (0..height).rev() {
        for column in 0..width {
            assert_eq!(order[place], row * width + column);
            assert_eq!(pixel_position(order[place], width), (column, row));
            place += 1;
        }
    }
    let mut seen = order.clone();
    seen.sort();
    assert_eq!(seen, (0..width * height).collect::<Vec<usize>>());
}

#[test]
fn arrange_puts_pixels_in_raster_order() {
    let pixels = vec![(0, 'a'), (1, 'b'), (2, 'c'), (3, 'd'), (4, 'e'), (5, 'f')];
    assert_eq!(arrange(2, 3, &pixels), Some(vec!['d', 'e', 'f', 'a', 'b', 'c']));
    assert_eq!(arrange(3, 2, &pixels), Some(vec!['e', 'f', 'c', 'd', 'a', 'b']));
    assert_eq!(arrange(1, 6, &pixels), Some(vec!['a', 'b', 'c', 'd', 'e', 'f']));
    assert_eq!(arrange(6, 1, &pixels), Some(vec!['f', 'e', 'd', 'c', 'b', 'a']));
}

#[test]
fn arrange_takes_pixels_in_any_order() {
    let shuffled = vec![(4, 'e'), (0, 'a'), (5, 'f'), (2, 'c'), (1, 'b'), (3, 'd')];
    assert_eq!(arrange(2, 3, &shuffled), Some(vec!['d', 'e', 'f', 'a', 'b', 'c']));
    let backwards = vec![(5, 'f'), (4, 'e'), (3, 'd'), (2, 'c'), (1, 'b'), (0, 'a')];
    assert_eq!(arrange(2, 3, &backwards), Some(vec!['d', 'e', 'f', 'a', 'b', 'c']));
}

#[test]
fn arrange_follows_raster_order() {
    let width = 5;
    let height = 4;
    let pixels: Vec<(usize, usize)> = (0..width * height).rev().map(|p| (p, p * 10)).collect();
    let arranged = arrange(height, width, &pixels).unwrap();
    let order = raster_order(height, width).unwrap();
    assert_eq!(arranged, order.iter().map(|p| p * 10).collect::<Vec<usize>>());
}

#[test]
fn arrange_refuses_a_pixel_that_comes_twice() {
    let pixels = vec![(0, 'a'), (1, 'b'), (1, 'c'), (3, 'd')];
    assert_eq!(arrange(2, 2, &pixels), None);
}

#[test]
fn arrange_refuses_a_missing_pixel() {
    let pixels = vec![(0, 'a'), (1, 'b'), (3, 'd')];
    assert_eq!(arrange(2, 2, &pixels), None);
    let none: Vec<(usize, char)> = vec![];
    assert_eq!(arrange(2, 2, &none), None);
}

#[test]
fn arrange_refuses_a_pixel_outside_the_image() {
    let pixels = vec![(0, 'a'), (1, 'b'), (2, 'c'), (4, 'd')];
    assert_eq!(arrange(2, 2, &pixels), None);
    let more = vec![(0, 'a'), (1, 'b'), (2, 'c'), (3, 'd'), (4, 'e')];
    assert_eq!(arrange(2, 2, &more), None);
}

#[test]
fn arrange_of_an_empty_image_is_empty() {
    let none: Vec<(usize, char)> = vec![];
    assert_eq!(arrange(0, 0, &none), Some(vec![]));
    assert_eq!(arrange(0, 7, &none), Some(vec![]));
    assert_eq!(arrange(7, 0, &none), Some(vec![]));
    assert_eq!(arrange(0, 7, &vec![(0, 'a')]), None);
}

#[test]
fn arrange_refuses_an_image_too_large_to_count() {
    let pixels = vec![(0, 'a')];
    assert_eq!(arrange(usize::MAX, 2, &pixels), None);
}
