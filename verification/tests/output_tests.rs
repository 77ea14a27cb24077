use pathtracer::output::{channel, encode_pixel, encode_size, pixel, push_decimal, Frame, Pixel};

fn text(line: &[u8]) -> String {
    String::from_utf8(line.to_vec()).unwrap()
}

#[test]
fn channel_keeps_values_in_range() {
    assert_eq!(channel(0), 0);
    assert_eq!(channel(1), 1);
    assert_eq!(channel(181), 181);
    assert_eq!(channel(255), 255);
}

#[test]
fn channel_cuts_values_out_of_range() {
    assert_eq!(channel(256), 255);
    assert_eq!(channel(100_000), 255);
    assert_eq!(channel(i64::MAX), 255);
    assert_eq!(channel(-1), 0);
    assert_eq!(channel(i64::MIN), 0);
}

#[test]
fn channel_of_any_finite_colour_is_a_byte() {
    for sum in [-3.5_f64, 0.0, 0.25, 0.5, 0.999, 1.0, 7.0, 1.0e300, -1.0e300] {
        let scaled = (256.0 * sum.clamp(0.0, 1.0).sqrt()) as i64;
        let level = i64::from(channel(scaled));
        assert!((0..=255).contains(&level));
    }
    assert_eq!(channel((256.0 * 0.25_f64.sqrt()) as i64), 128);
    assert_eq!(channel((256.0 * 1.0_f64.sqrt()) as i64), 255);
}

#[test]
fn pixel_cuts_each_channel() {
    assert_eq!(pixel(-5, 128, 300), Pixel { r: 0, g: 128, b: 255 });
}

#[test]
fn decimal_digits() {
    for (n, expected) in [
        (0_u64, "0"),
        (7, "7"),
        (9, "9"),
        (10, "10"),
        (255, "255"),
        (2048, "2048"),
        (1365, "1365"),
        (u64::MAX, "18446744073709551615"),
    ] {
        let mut out = Vec::new();
        push_decimal(&mut out, n);
        assert_eq!(text(&out), expected);
    }
}

#[test]
fn decimal_appends_to_what_is_there() {
    let mut out = vec![b'x', b' '];
    push_decimal(&mut out, 42);
    assert_eq!(text(&out), "x 42");
}

#[test]
fn size_and_pixel_lines() {
    assert_eq!(text(&encode_size(2048, 1365)), "2048 1365");
    assert_eq!(text(&encode_size(1, 1)), "1 1");
    assert_eq!(text(&encode_pixel(Pixel { r: 0, g: 12, b: 255 })), "0 12 255");
}

#[test]
fn rows_are_asked_for_from_the_top() {
    let mut frame = Frame::new(2, 3);
    let line = vec![Pixel { r: 1, g: 2, b: 3 }; 2];
    assert_eq!(frame.next_row(), Some(2));
    assert!(frame.push_scanline(&line));
    assert_eq!(frame.next_row(), Some(1));
    assert!(frame.push_scanline(&line));
    assert_eq!(frame.next_row(), Some(0));
    assert!(!frame.is_complete());
    assert!(frame.push_scanline(&line));
    assert_eq!(frame.next_row(), None);
    assert!(frame.is_complete());
}

#[test]
fn wrong_scanlines_are_refused() {
    let mut frame = Frame::new(2, 1);
    assert!(!frame.push_scanline(&vec![Pixel { r: 0, g: 0, b: 0 }; 1]));
    assert!(!frame.push_scanline(&vec![Pixel { r: 0, g: 0, b: 0 }; 3]));
    assert_eq!(frame.next_row(), Some(0));
    assert!(frame.encode().is_none());
    assert!(frame.push_scanline(&vec![Pixel { r: 0, g: 0, b: 0 }; 2]));
    assert!(!frame.push_scanline(&vec![Pixel { r: 0, g: 0, b: 0 }; 2]));
    assert_eq!(frame.encode().unwrap().len(), 5);
}

#[test]
fn incomplete_frame_has_no_text() {
    let mut frame = Frame::new(1, 2);
    assert!(frame.encode().is_none());
    assert!(frame.push_scanline(&vec![Pixel { r: 9, g: 9, b: 9 }]));
    assert!(frame.encode().is_none());
}

#[test]
fn pixel_lines_follow_three_header_lines() {
    for (w, h) in [(1_u64, 1_u64), (2, 3), (5, 4), (3, 0), (0, 2)] {
        let mut frame = Frame::new(w, h);
        while let Some(row) = frame.next_row() {
            let line: Vec<Pixel> =
                (0..w).map(|c| Pixel { r: c as u8, g: row as u8, b: 7 }).collect();
            assert!(frame.push_scanline(&line));
        }
        let lines = frame.encode().unwrap();
        assert_eq!(lines.len() as u64, 3 + w * h);
        assert_eq!(text(&lines[0]), "P3");
        assert_eq!(text(&lines[1]), format!("{} {}", w, h));
        assert_eq!(text(&lines[2]), "255");
    }
}

#[test]
fn pixels_are_written_row_major_from_the_top() {
    let mut frame = Frame::new(2, 2);
    assert!(frame.push_scanline(&vec![Pixel { r: 10, g: 0, b: 0 }, Pixel { r: 11, g: 0, b: 0 }]));
    assert!(frame.push_scanline(&vec![Pixel { r: 0, g: 0, b: 0 }, Pixel { r: 1, g: 0, b: 0 }]));
    let lines: Vec<String> = frame.encode().unwrap().iter().map(|l| text(l)).collect();
    assert_eq!(lines, vec!["P3", "2 2", "255", "10 0 0", "11 0 0", "0 0 0", "1 0 0"]);
}

#[test]
fn pixel_at_finds_stored_rows_only() {
    let mut frame = Frame::new(2, 2);
    assert_eq!(frame.pixel_at(0, 1), None);
    assert!(frame.push_scanline(&vec![Pixel { r: 10, g: 0, b: 0 }, Pixel { r: 11, g: 0, b: 0 }]));
    assert_eq!(frame.pixel_at(0, 1), Some(Pixel { r: 10, g: 0, b: 0 }));
    assert_eq!(frame.pixel_at(1, 1), Some(Pixel { r: 11, g: 0, b: 0 }));
    assert_eq!(frame.pixel_at(0, 0), None);
    assert_eq!(frame.pixel_at(2, 1), None);
    assert_eq!(frame.pixel_at(0, 2), None);
    assert!(frame.push_scanline(&vec![Pixel { r: 0, g: 5, b: 0 }, Pixel { r: 1, g: 5, b: 0 }]));
    assert_eq!(frame.pixel_at(1, 0), Some(Pixel { r: 1, g: 5, b: 0 }));
    assert_eq!(frame.pixel_at(0, 1), Some(Pixel { r: 10, g: 0, b: 0 }));
}
