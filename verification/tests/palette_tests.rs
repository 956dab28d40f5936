use gmhelper::frame::{Frame, Rgb};
use gmhelper::indexed::{encode_frame, encode_frames};
use gmhelper::palette::{color_distance, transparent_marker, Palette, MAX_COLORS};

fn rgb(r: u8, g: u8, b: u8) -> Rgb {
    Rgb { r, g, b }
}

fn frame_of(width: u32, height: u32, pixels: &[(u8, u8, u8, u8)]) -> Frame {
    let mut bytes = Vec::new();
    for &(r, g, b, a) in pixels {
        bytes.extend_from_slice(&[r, g, b, a]);
    }
    Frame::new(width, height, bytes).expect("buffer fits the dimensions")
}

fn many_colors(count: u32) -> Frame {
    let pixels: Vec<(u8, u8, u8, u8)> =
        (0..count).map(|i| ((i % 256) as u8, (i / 256) as u8, 7, 255)).collect();
    frame_of(count, 1, &pixels)
}

fn colors_of(palette: &Palette) -> Vec<Rgb> {
    (0..palette.len()).map(|i| palette.color(i)).collect()
}

#[test]
fn marker_is_the_reserved_green() {
    assert_eq!(transparent_marker(), rgb(1, 254, 1));
    assert_eq!(MAX_COLORS, 256);
}

#[test]
fn distance_is_the_squared_euclidean_distance() {
    assert_eq!(color_distance(rgb(0, 0, 0), rgb(0, 0, 0)), 0);
    assert_eq!(color_distance(rgb(10, 20, 30), rgb(13, 16, 30)), 9 + 16);
    assert_eq!(color_distance(rgb(0, 0, 0), rgb(255, 255, 255)), 3 * 255 * 255);
    assert_eq!(color_distance(rgb(255, 0, 7), rgb(0, 255, 7)), 2 * 255 * 255);
}

#[test]
fn palette_of_nothing_is_the_marker_alone() {
    let palette = Palette::build(&Vec::new());
    assert_eq!(colors_of(&palette), vec![rgb(1, 254, 1)]);
}

#[test]
fn palette_lists_opaque_colors_once_in_first_seen_order() {
    let frames = vec![
        frame_of(3, 1, &[(9, 9, 9, 255), (5, 5, 5, 0), (1, 2, 3, 128)]),
        frame_of(3, 1, &[(1, 2, 3, 255), (7, 7, 7, 1), (9, 9, 9, 255)]),
    ];
    let palette = Palette::build(&frames);
    assert_eq!(
        colors_of(&palette),
        vec![rgb(1, 254, 1), rgb(9, 9, 9), rgb(1, 2, 3), rgb(7, 7, 7)]
    );
}

#[test]
fn palette_gives_the_marker_colour_no_entry_of_its_own() {
    let frames = vec![frame_of(2, 1, &[(1, 254, 1, 255), (3, 250, 3, 255)])];
    let palette = Palette::build(&frames);
    assert_eq!(colors_of(&palette), vec![rgb(1, 254, 1), rgb(3, 250, 3)]);
    assert_eq!(palette.exact(rgb(1, 254, 1)), None);
    assert_eq!(palette.index_of(rgb(1, 254, 1)), 1);
}

#[test]
fn palette_is_cut_off_after_256_entries() {
    let frames = vec![many_colors(300)];
    let palette = Palette::build(&frames);
    assert_eq!(palette.len(), 256);
    assert_eq!(palette.color(0), rgb(1, 254, 1));
    assert_eq!(palette.color(1), rgb(0, 0, 7));
    assert_eq!(palette.color(255), rgb(254, 0, 7));
    assert_eq!(palette.exact(rgb(254, 0, 7)), Some(255));
    assert_eq!(palette.exact(rgb(255, 0, 7)), None);
    assert_eq!(palette.exact(rgb(0, 1, 7)), None);
    assert_eq!(palette.to_bytes().len(), 768);
}

#[test]
fn palette_with_exactly_255_colors_keeps_them_all() {
    let frames = vec![many_colors(255)];
    let palette = Palette::build(&frames);
    assert_eq!(palette.len(), 256);
    assert_eq!(palette.exact(rgb(254, 0, 7)), Some(255));
}

#[test]
fn palette_bytes_are_the_colors_in_order() {
    let frames = vec![frame_of(2, 1, &[(10, 20, 30, 255), (40, 50, 60, 255)])];
    let palette = Palette::build(&frames);
    assert_eq!(palette.to_bytes(), vec![1, 254, 1, 10, 20, 30, 40, 50, 60]);
}

#[test]
fn nearest_takes_the_closest_entry_and_the_first_of_equals() {
    let frames = vec![frame_of(3, 1, &[(10, 0, 0, 255), (20, 0, 0, 255), (0, 0, 0, 255)])];
    let palette = Palette::build(&frames);
    assert_eq!(palette.nearest(rgb(12, 0, 0)), 1);
    assert_eq!(palette.nearest(rgb(19, 0, 0)), 2);
    assert_eq!(palette.nearest(rgb(15, 0, 0)), 1);
    assert_eq!(palette.nearest(rgb(5, 0, 0)), 1);
    assert_eq!(palette.nearest(rgb(4, 0, 0)), 3);
}

#[test]
fn nearest_never_takes_the_marker_entry() {
    let frames = vec![frame_of(1, 1, &[(200, 0, 200, 255)])];
    let palette = Palette::build(&frames);
    assert_eq!(palette.nearest(rgb(1, 254, 2)), 1);
    assert_eq!(palette.index_of(rgb(1, 254, 2)), 1);
}

#[test]
fn index_of_falls_back_to_zero_only_without_any_other_entry() {
    let palette = Palette::build(&Vec::new());
    assert_eq!(palette.index_of(rgb(9, 9, 9)), 0);
}

#[test]
fn encoding_marks_transparent_pixels_with_index_zero() {
    let frame = frame_of(2, 2, &[(9, 9, 9, 255), (0, 0, 0, 0), (8, 8, 8, 3), (9, 9, 9, 0)]);
    let palette = Palette::build(&vec![frame.clone()]);
    let out = encode_frame(&palette, &frame);
    assert_eq!((out.width, out.height), (2, 2));
    assert_eq!(out.indices, vec![1, 0, 2, 0]);
    assert!(out.has_transparency);
    assert_eq!(out.transparent_key(), Some(0));
}

#[test]
fn encoding_an_opaque_frame_declares_no_transparency() {
    let frame = frame_of(2, 1, &[(1, 254, 1, 255), (8, 8, 8, 255)]);
    let palette = Palette::build(&vec![frame.clone()]);
    let out = encode_frame(&palette, &frame);
    assert_eq!(out.indices, vec![1, 1]);
    assert!(!out.has_transparency);
    assert_eq!(out.transparent_key(), None);
}

#[test]
fn every_index_stands_for_the_exact_or_the_nearest_surviving_colour() {
    let frames = vec![many_colors(300), frame_of(2, 1, &[(0, 0, 0, 0), (77, 0, 7, 255)])];
    let palette = Palette::build(&frames);
    let colors = colors_of(&palette);
    let encoded = encode_frames(&frames, &palette);
    assert_eq!(encoded.len(), 2);
    for (frame, out) in frames.iter().zip(encoded.iter()) {
        for k in 0..(frame.width * frame.height) as usize {
            let index = out.indices[k] as usize;
            if frame.pixels[4 * k + 3] == 0 {
                assert_eq!(index, 0);
                continue;
            }
            let c = rgb(frame.pixels[4 * k], frame.pixels[4 * k + 1], frame.pixels[4 * k + 2]);
            if colors[index] == c {
                continue;
            }
            assert!(index >= 1);
            assert!(!colors[1..].contains(&c));
            let d = color_distance(colors[index], c);
            for (j, other) in colors.iter().enumerate().skip(1) {
                let dj = color_distance(*other, c);
                assert!(d <= dj);
                if j < index {
                    assert!(dj > d);
                }
            }
        }
    }
    assert!(!encoded[0].has_transparency);
    assert!(encoded[1].has_transparency);
    assert_eq!(encoded[0].indices[254], 255);
    assert_eq!(encoded[0].indices[299], 44);
}
