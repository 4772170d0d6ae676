use eyebeam::color::Color;
use eyebeam::frame::{tiles, Frame, Tile};

fn rgba(r: u8, g: u8, b: u8, a: u8) -> Color {
    Color { r, g, b, a }
}

#[test]
fn sixteen_workers_share_sixteen_hundred_columns() {
    let shares = tiles(1600, 16);
    assert_eq!(shares.len(), 16);
    for j in 0..16 {
        assert_eq!(shares[j], Tile { first: j * 100, end: (j + 1) * 100 });
    }
}

#[test]
fn tiles_cover_every_column_once() {
    for width in [0usize, 1, 7, 16, 100, 1601] {
        for workers in [1usize, 2, 3, 16, 17] {
            let shares = tiles(width, workers);
            assert_eq!(shares.len(), workers);
            assert_eq!(shares[0].first, 0);
            assert_eq!(shares[workers - 1].end, width);
            for j in 1..workers {
                assert_eq!(shares[j - 1].end, shares[j].first);
            }
            for column in 0..width {
                let holders = shares.iter().filter(|t| t.first <= column && column < t.end).count();
                assert_eq!(holders, 1);
            }
        }
    }
}

#[test]
fn tiles_split_a_remainder_evenly() {
    assert_eq!(
        tiles(10, 4),
        vec![
            Tile { first: 0, end: 2 },
            Tile { first: 2, end: 5 },
            Tile { first: 5, end: 7 },
            Tile { first: 7, end: 10 }
        ]
    );
    assert_eq!(tiles(2, 3), vec![Tile { first: 0, end: 0 }, Tile { first: 0, end: 1 }, Tile { first: 1, end: 2 }]);
    assert_eq!(tiles(usize::MAX, 2)[0].end, usize::MAX / 2);
}

#[test]
fn no_worker_gets_no_tile() {
    assert_eq!(tiles(1600, 0), vec![]);
}

#[test]
fn a_new_frame_is_black() {
    let frame = Frame::new(4, 3).unwrap();
    assert_eq!(frame.width(), 4);
    assert_eq!(frame.height(), 3);
    assert_eq!(frame.data(), &vec![0u8; 36]);
    assert_eq!(frame.get_pixel(3, 2), Some(rgba(0, 0, 0, 255)));
}

#[test]
fn a_frame_too_large_to_count_is_not_made() {
    assert!(Frame::new(usize::MAX, 2).is_none());
    assert!(Frame::new(usize::MAX / 3 + 1, 1).is_none());
    assert!(Frame::new(usize::MAX, usize::MAX).is_none());
    assert!(Frame::new(0, usize::MAX).is_some());
    assert!(Frame::new(0, 0).is_some());
}

#[test]
fn pixels_lie_row_after_row() {
    let mut frame = Frame::new(4, 3).unwrap();
    assert!(frame.set_pixel(1, 2, rgba(10, 20, 30, 7)));
    let mut expected = vec![0u8; 36];
    expected[27] = 10;
    expected[28] = 20;
    expected[29] = 30;
    assert_eq!(frame.data(), &expected);
    assert_eq!(frame.get_pixel(1, 2), Some(rgba(10, 20, 30, 255)));
    assert!(frame.set_pixel(0, 0, rgba(1, 2, 3, 255)));
    assert!(frame.set_pixel(3, 2, rgba(4, 5, 6, 255)));
    expected[0] = 1;
    expected[1] = 2;
    expected[2] = 3;
    expected[33] = 4;
    expected[34] = 5;
    expected[35] = 6;
    assert_eq!(frame.data(), &expected);
}

#[test]
fn a_pixel_outside_the_frame_is_not_written() {
    let mut frame = Frame::new(4, 3).unwrap();
    assert!(!frame.set_pixel(4, 0, rgba(9, 9, 9, 255)));
    assert!(!frame.set_pixel(0, 3, rgba(9, 9, 9, 255)));
    assert!(!frame.set_pixel(usize::MAX, usize::MAX, rgba(9, 9, 9, 255)));
    assert_eq!(frame.data(), &vec![0u8; 36]);
    assert_eq!(frame.get_pixel(4, 0), None);
    assert_eq!(frame.get_pixel(0, 3), None);
}

#[test]
fn workers_fill_their_own_tiles() {
    let mut frame = Frame::new(10, 2).unwrap();
    for (worker, tile) in tiles(10, 4).iter().enumerate() {
        for x in tile.first..tile.end {
            for y in 0..2 {
                assert_eq!(frame.get_pixel(x, y), Some(rgba(0, 0, 0, 255)));
                assert!(frame.set_pixel(x, y, rgba(worker as u8 + 1, x as u8, y as u8, 255)));
            }
        }
    }
    for x in 0..10 {
        for y in 0..2 {
            let color = frame.get_pixel(x, y).unwrap();
            assert!(color.r >= 1 && color.r <= 4);
            assert_eq!((color.g, color.b), (x as u8, y as u8));
        }
    }
}
