use frameid::encoder::FrameEncoder;
use frameid::error::CodecError;
use frameid::frame::{PixelFormat, VideoGeometry};
use frameid::region::{Anchor, Rect, ScanRegion};
use frameid::scanner::{extract_intensity, select_payload, starts_with, FrameScanner, ScanOutcome};

fn rgbx(width: u32, height: u32) -> VideoGeometry {
    VideoGeometry { width, height, format: PixelFormat::Rgbx }
}

fn stamped_frame(prefix: &str, g: VideoGeometry) -> Vec<u8> {
    let mut enc = FrameEncoder::new();
    enc.set_prefix(Some(prefix.to_string()));
    enc.configure(g);
    let mut frame = vec![255u8; 4 * (g.width * g.height) as usize];
    enc.encode_into(&mut frame).unwrap();
    frame
}

#[test]
fn round_trip_without_filter() {
    let g = rgbx(320, 240);
    let frame = stamped_frame("f:", g);
    let mut scanner = FrameScanner::new();
    scanner.configure(g);
    assert_eq!(scanner.scan(&frame), Ok(ScanOutcome::Found("f:0".to_string())));
}

#[test]
fn round_trip_of_later_frames() {
    let g = rgbx(320, 240);
    let mut enc = FrameEncoder::new();
    enc.set_prefix(Some("s:".to_string()));
    enc.configure(g);
    let mut scanner = FrameScanner::new();
    scanner.configure(g);
    for n in 0..3 {
        let mut frame = vec![255u8; 4 * 320 * 240];
        enc.encode_into(&mut frame).unwrap();
        assert_eq!(scanner.scan(&frame), Ok(ScanOutcome::Found(format!("s:{}", n))));
    }
}

#[test]
fn filter_drops_foreign_prefix() {
    let g = rgbx(320, 240);
    let frame = stamped_frame("s:", g);
    let mut scanner = FrameScanner::new();
    scanner.configure(g);
    scanner.set_prefix(Some("f:".to_string()));
    assert_eq!(scanner.scan(&frame), Ok(ScanOutcome::Dropped));
    scanner.set_prefix(Some("s:".to_string()));
    assert_eq!(scanner.scan(&frame), Ok(ScanOutcome::Found("s:0".to_string())));
}

#[test]
fn blank_frame_is_dropped() {
    let g = rgbx(64, 48);
    let frame = vec![255u8; 4 * 64 * 48];
    let mut scanner = FrameScanner::new();
    scanner.configure(g);
    assert_eq!(scanner.scan(&frame), Ok(ScanOutcome::Dropped));
}

#[test]
fn scan_errors() {
    let mut scanner = FrameScanner::new();
    let frame = vec![0u8; 3 * 64 * 48];
    assert_eq!(scanner.scan(&frame), Err(CodecError::NotConfigured));
    scanner.configure(VideoGeometry { width: 64, height: 48, format: PixelFormat::Rgb });
    assert_eq!(scanner.scan(&frame[..100].to_vec()), Err(CodecError::BufferNotReadable));
    scanner.set_region(ScanRegion { anchor: Anchor::TopLeft, width: 65, height: 10 });
    assert_eq!(scanner.scan(&frame), Err(CodecError::RegionOutsideFrame));
}

#[test]
fn region_corners_of_640_by_480() {
    let g = VideoGeometry { width: 640, height: 480, format: PixelFormat::Rgb };
    let at = |anchor| ScanRegion { anchor, width: 100, height: 100 }.rect(&g).unwrap();
    assert_eq!(at(Anchor::BottomRight), Rect { x: 540, y: 380, width: 100, height: 100 });
    assert_eq!(at(Anchor::TopLeft), Rect { x: 0, y: 0, width: 100, height: 100 });
    assert_eq!(at(Anchor::TopRight), Rect { x: 540, y: 0, width: 100, height: 100 });
    assert_eq!(at(Anchor::BottomLeft), Rect { x: 0, y: 380, width: 100, height: 100 });
    assert_eq!(
        ScanRegion::full_frame().rect(&g),
        Some(Rect { x: 0, y: 0, width: 640, height: 480 })
    );
    assert_eq!(ScanRegion { anchor: Anchor::TopLeft, width: 641, height: 1 }.rect(&g), None);
}

#[test]
fn bottom_right_region_reads_the_corner() {
    let g = VideoGeometry { width: 640, height: 480, format: PixelFormat::Rgb };
    let mut frame = vec![0u8; 3 * 640 * 480];
    // mark pixel (540, 380), the first of the corner, and (539, 380), just outside
    let i = 3 * (540 + 640 * 380);
    frame[i..i + 3].copy_from_slice(&[30, 60, 90]);
    let j = 3 * (539 + 640 * 380);
    frame[j..j + 3].copy_from_slice(&[255, 255, 255]);
    let rect = ScanRegion { anchor: Anchor::BottomRight, width: 100, height: 100 }.rect(&g).unwrap();
    let image = extract_intensity(&frame, g, rect);
    assert_eq!(image.len(), 100 * 100);
    assert_eq!(image[0], 10 + 20 + 30);
    assert!(image[1..].iter().all(|&v| v == 0));
}

#[test]
fn grey_level_divides_each_channel() {
    let g = VideoGeometry { width: 2, height: 1, format: PixelFormat::Rgb };
    let frame = vec![2u8, 2, 2, 255, 254, 253];
    let image = extract_intensity(&frame, g, Rect { x: 0, y: 0, width: 2, height: 1 });
    assert_eq!(image, vec![0, 85 + 84 + 84]);
}

#[test]
fn position_names() {
    assert_eq!(Anchor::from_position(&Some("top-right".to_string())), Anchor::TopRight);
    assert_eq!(Anchor::from_position(&Some("bottom-left".to_string())), Anchor::BottomLeft);
    assert_eq!(Anchor::from_position(&Some("bottom-right".to_string())), Anchor::BottomRight);
    assert_eq!(Anchor::from_position(&Some("middle".to_string())), Anchor::TopLeft);
    assert_eq!(Anchor::from_position(&None), Anchor::TopLeft);
    assert_eq!(Anchor::BottomRight.position(), "bottom-right");
    assert_eq!(Anchor::TopLeft.position(), "top-left");
}

#[test]
fn first_accepted_payload_wins() {
    let attempts = vec![
        None,
        Some(b"s:4".to_vec()),
        Some(b"f:9".to_vec()),
        Some(b"f:10".to_vec()),
    ];
    assert_eq!(
        select_payload(&attempts, &Some("f:".to_string())),
        Ok(ScanOutcome::Found("f:9".to_string()))
    );
    assert_eq!(select_payload(&attempts, &None), Ok(ScanOutcome::Found("s:4".to_string())));
    assert_eq!(select_payload(&attempts, &Some("e:".to_string())), Ok(ScanOutcome::Dropped));
    assert_eq!(select_payload(&vec![], &None), Ok(ScanOutcome::Dropped));
}

#[test]
fn payload_that_is_not_utf8_is_an_error() {
    let attempts = vec![Some(vec![0x66, 0xff]), Some(b"f:1".to_vec())];
    assert_eq!(select_payload(&attempts, &None), Err(CodecError::InvalidPayload));
    let later = vec![Some(b"f:1".to_vec()), Some(vec![0xff])];
    assert_eq!(select_payload(&later, &None), Ok(ScanOutcome::Found("f:1".to_string())));
}

#[test]
fn byte_prefixes() {
    assert!(starts_with(b"f:12", b"f:"));
    assert!(starts_with(b"f:", b""));
    assert!(!starts_with(b"f", b"f:"));
    assert!(!starts_with(b"s:1", b"f:"));
}
