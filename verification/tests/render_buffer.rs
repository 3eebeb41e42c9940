use cheval::render_buffer::RenderBuffer;

#[test]
fn new_buffer_is_zeroed() {
    let b = RenderBuffer::new(4, 3);
    assert_eq!(4, b.width);
    assert_eq!(3, b.height);
    assert_eq!(vec![0u32; 12], b.buffer);
}

#[test]
fn empty_buffer_has_no_pixels() {
    let b = RenderBuffer::new(0, 7);
    assert_eq!(0, b.buffer.len());
}

#[test]
fn block_is_visited_with_buffer_and_block_coordinates() {
    let mut b = RenderBuffer::new(4, 3);
    b.for_pixel_in_block(1, 1, 2, 2, |px, py, x, y, c| c + 1000 * px + 100 * py + 10 * x + y + 1);
    let expected: Vec<u32> = vec![
        0, 0, 0, 0,
        0, 1101, 2111, 0,
        0, 1202, 2212, 0,
    ];
    assert_eq!(expected, b.buffer);
}

#[test]
fn block_is_cut_at_the_buffer_edge() {
    let mut b = RenderBuffer::new(3, 2);
    b.for_pixel_in_block(2, 1, 5, 5, |_, _, _, _, _| 7);
    assert_eq!(vec![0, 0, 0, 0, 0, 7], b.buffer);
}

#[test]
fn block_outside_the_buffer_changes_nothing() {
    let mut b = RenderBuffer::new(3, 2);
    b.for_pixel_in_block(3, 0, 2, 2, |_, _, _, _, _| 7);
    b.for_pixel_in_block(0, 2, 2, 2, |_, _, _, _, _| 7);
    b.for_pixel_in_block(u32::MAX, u32::MAX, 3, 3, |_, _, _, _, _| 7);
    assert_eq!(vec![0u32; 6], b.buffer);
}

#[test]
fn block_sees_the_colour_that_was_there() {
    let mut b = RenderBuffer::new(2, 2);
    b.for_pixel_in_block(0, 0, 2, 2, |px, py, _, _, _| 1 + px + 2 * py);
    b.for_pixel_in_block(0, 0, 2, 1, |_, _, _, _, c| c * 10);
    assert_eq!(vec![10, 20, 3, 4], b.buffer);
}
