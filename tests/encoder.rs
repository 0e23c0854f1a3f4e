use frameid::encoder::FrameEncoder;
use frameid::error::CodecError;
use frameid::frame::{PixelFormat, VideoGeometry};

fn rgbx(width: u32, height: u32) -> VideoGeometry {
    VideoGeometry { width, height, format: PixelFormat::Rgbx }
}

#[test]
fn encode_before_negotiation_fails_and_keeps_counter() {
    let mut enc = FrameEncoder::new();
    let mut frame = vec![7u8; 4 * 64 * 64];
    assert_eq!(enc.encode_into(&mut frame).err(), Some(CodecError::NotConfigured));
    assert_eq!(enc.frame_index(), 0);
    assert!(frame.iter().all(|&b| b == 7));
}

#[test]
fn encode_into_short_buffer_fails() {
    let mut enc = FrameEncoder::new();
    enc.configure(rgbx(320, 240));
    let mut frame = vec![0u8; 4 * 320 * 240 - 1];
    assert_eq!(enc.encode_into(&mut frame).err(), Some(CodecError::BufferNotWritable));
    assert_eq!(enc.frame_index(), 0);
}

#[test]
fn encode_stamps_symbol_and_advances() {
    let mut enc = FrameEncoder::new();
    enc.set_prefix(Some("f:".to_string()));
    enc.configure(rgbx(320, 240));
    let mut frame = vec![100u8; 4 * 320 * 240];
    let id = enc.encode_into(&mut frame).unwrap();
    assert_eq!(id.canonical_text(), "f:0");
    assert_eq!(enc.frame_index(), 1);
    // colour channels of the stamped corner hold 0 or 255; padding stays
    for y in 0..21 {
        for x in 0..21 {
            let i = 4 * (x + 320 * y);
            let v = frame[i];
            assert!(v == 0 || v == 255);
            assert_eq!(frame[i + 1], v);
            assert_eq!(frame[i + 2], v);
            assert_eq!(frame[i + 3], 100);
        }
    }
    // the bottom-right corner lies outside the symbol
    let last = 4 * (319 + 320 * 239);
    assert_eq!(&frame[last..last + 4], &[100, 100, 100, 100]);
}

#[test]
fn successive_encodes_count_up() {
    let mut enc = FrameEncoder::new();
    enc.set_prefix(Some("f:".to_string()));
    enc.configure(rgbx(320, 240));
    let mut texts = Vec::new();
    for _ in 0..5 {
        let mut frame = vec![255u8; 4 * 320 * 240];
        texts.push(enc.encode_into(&mut frame).unwrap().canonical_text());
    }
    assert_eq!(texts, vec!["f:0", "f:1", "f:2", "f:3", "f:4"]);
    assert_eq!(enc.frame_index(), 5);
}

#[test]
fn renegotiation_restarts_counter() {
    let mut enc = FrameEncoder::new();
    enc.configure(rgbx(320, 240));
    let mut frame = vec![255u8; 4 * 320 * 240];
    enc.encode_into(&mut frame).unwrap();
    enc.encode_into(&mut frame).unwrap();
    assert_eq!(enc.frame_index(), 2);
    enc.configure(rgbx(320, 240));
    assert_eq!(enc.frame_index(), 0);
    let id = enc.encode_into(&mut frame).unwrap();
    assert_eq!(id.canonical_text(), "0");
}

#[test]
fn symbol_is_clipped_to_small_frame() {
    let mut enc = FrameEncoder::new();
    enc.configure(VideoGeometry { width: 10, height: 5, format: PixelFormat::Rgb });
    let mut frame = vec![1u8; 3 * 10 * 5 + 6];
    enc.encode_into(&mut frame).unwrap();
    assert!(frame[..150].iter().all(|&b| b == 0 || b == 255));
    assert_eq!(&frame[150..], &[1, 1, 1, 1, 1, 1]);
}

#[test]
fn text_too_long_for_a_symbol_fails() {
    let mut enc = FrameEncoder::new();
    enc.set_prefix(Some("x".repeat(8000)));
    enc.configure(rgbx(64, 64));
    let mut frame = vec![9u8; 4 * 64 * 64];
    assert_eq!(enc.encode_into(&mut frame).err(), Some(CodecError::SymbolEncodeFailed));
    assert_eq!(enc.frame_index(), 0);
    assert!(frame.iter().all(|&b| b == 9));
}
