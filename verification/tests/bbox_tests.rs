use gmhelper::bbox::{calculate_tight_bbox, BBox};
use gmhelper::frame::Frame;

fn frame_with(width: u32, height: u32, opaque: &[(u32, u32)]) -> Frame {
    let mut pixels = vec![0u8; (width * height * 4) as usize];
    for &(x, y) in opaque {
        let at = ((y * width + x) * 4) as usize;
        pixels[at] = 200;
        pixels[at + 3] = 255;
    }
    Frame::new(width, height, pixels).expect("buffer fits the dimensions")
}

fn occupied(frames: &[Frame], x: u32, y: u32) -> bool {
    frames.iter().any(|f| f.pixels[((y * f.width + x) * 4 + 3) as usize] > 0)
}

#[test]
fn frame_new_refuses_a_buffer_of_the_wrong_length() {
    assert!(Frame::new(2, 2, vec![0u8; 15]).is_none());
    assert!(Frame::new(2, 2, vec![0u8; 17]).is_none());
    assert!(Frame::new(2, 2, vec![0u8; 16]).is_some());
    assert!(Frame::new(0, 5, Vec::new()).is_some());
}

#[test]
fn bbox_of_all_transparent_stack_is_none() {
    let frames = vec![frame_with(4, 3, &[]), frame_with(4, 3, &[])];
    assert!(calculate_tight_bbox(&frames, 4, 3).is_none());
}

#[test]
fn bbox_of_no_frames_is_none() {
    let frames: Vec<Frame> = Vec::new();
    assert!(calculate_tight_bbox(&frames, 4, 3).is_none());
}

#[test]
fn bbox_of_a_single_pixel_is_that_pixel() {
    let frames = vec![frame_with(5, 7, &[(3, 6)])];
    let b = calculate_tight_bbox(&frames, 5, 7).expect("one pixel is occupied");
    assert_eq!((b.left, b.top, b.right, b.bottom), (3, 6, 3, 6));
}

#[test]
fn bbox_bounds_the_union_of_all_frames() {
    let frames = vec![frame_with(8, 8, &[(2, 5)]), frame_with(8, 8, &[(6, 1)])];
    let b = calculate_tight_bbox(&frames, 8, 8).expect("two pixels are occupied");
    assert_eq!((b.left, b.top, b.right, b.bottom), (2, 1, 6, 5));
}

#[test]
fn bbox_counts_any_non_zero_alpha_as_occupied() {
    let mut pixels = vec![0u8; 3 * 3 * 4];
    pixels[(1 * 3 + 2) * 4 + 3] = 1;
    let frames = vec![Frame::new(3, 3, pixels).expect("sized")];
    let b = calculate_tight_bbox(&frames, 3, 3).expect("alpha 1 is occupied");
    assert_eq!((b.left, b.top, b.right, b.bottom), (2, 1, 2, 1));
}

#[test]
fn bbox_of_a_full_frame_is_the_whole_frame() {
    let all: Vec<(u32, u32)> = (0..4).flat_map(|y| (0..6).map(move |x| (x, y))).collect();
    let frames = vec![frame_with(6, 4, &all)];
    let b = calculate_tight_bbox(&frames, 6, 4).expect("every pixel is occupied");
    assert_eq!((b.left, b.top, b.right, b.bottom), (0, 0, 5, 3));
    let full = BBox::full_frame(6, 4);
    assert_eq!((full.left, full.top, full.right, full.bottom), (0, 0, 5, 3));
    let none = BBox::full_frame(0, 0);
    assert_eq!((none.left, none.top, none.right, none.bottom), (0, 0, -1, -1));
}

#[test]
fn bbox_contains_every_occupied_pixel_and_no_edge_can_move_inwards() {
    let frames = vec![
        frame_with(9, 7, &[(4, 2), (5, 5)]),
        frame_with(9, 7, &[(1, 3)]),
        frame_with(9, 7, &[]),
        frame_with(9, 7, &[(7, 4), (3, 3)]),
    ];
    let b = calculate_tight_bbox(&frames, 9, 7).expect("some pixels are occupied");
    for y in 0..7u32 {
        for x in 0..9u32 {
            if occupied(&frames, x, y) {
                assert!(b.left <= x as i32 && x as i32 <= b.right);
                assert!(b.top <= y as i32 && y as i32 <= b.bottom);
            }
        }
    }
    assert!((0..7).any(|y| occupied(&frames, b.left as u32, y)));
    assert!((0..7).any(|y| occupied(&frames, b.right as u32, y)));
    assert!((0..9).any(|x| occupied(&frames, x, b.top as u32)));
    assert!((0..9).any(|x| occupied(&frames, x, b.bottom as u32)));
    assert_eq!((b.left, b.top, b.right, b.bottom), (1, 2, 7, 5));
}
