use minute_of_silence::apng::{
    compose_frames, composite, decode_apng_frames, fill_rect, rgba_error_message, to_rgba,
    BlendOp, ColorType, DisposeOp, FrameRect, RawFrame, Rgba, RgbaError,
};

fn over(s: Rgba, d: Rgba) -> Rgba {
    if s.a == 255 {
        s
    } else if s.a == 0 {
        d
    } else {
        Rgba { r: 1, g: 2, b: 3, a: 4 }
    }
}

#[test]
fn to_rgba_widens_every_colour_type() {
    assert_eq!(to_rgba(&[1, 2, 3, 4], ColorType::Rgba, 1, 1), Ok(vec![1, 2, 3, 4]));
    assert_eq!(to_rgba(&[1, 2, 3, 4, 5, 6], ColorType::Rgb, 2, 1), Ok(vec![1, 2, 3, 255, 4, 5, 6, 255]));
    assert_eq!(to_rgba(&[7, 9], ColorType::GrayscaleAlpha, 1, 1), Ok(vec![7, 7, 7, 9]));
    assert_eq!(to_rgba(&[7, 8], ColorType::Grayscale, 2, 1), Ok(vec![7, 7, 7, 255, 8, 8, 8, 255]));
    assert_eq!(to_rgba(&[0], ColorType::Indexed, 1, 1), Err(RgbaError::IndexedUnsupported));
    assert_eq!(
        to_rgba(&[1, 2, 3, 4], ColorType::Rgb, 1, 1),
        Err(RgbaError::LengthMismatch { produced: 6, expected: 4 })
    );
}

#[test]
fn error_messages() {
    assert_eq!(rgba_error_message(RgbaError::IndexedUnsupported), "Indexed colour APNG is not yet supported");
    assert_eq!(
        rgba_error_message(RgbaError::LengthMismatch { produced: 6, expected: 4 }),
        "RGBA conversion produced 6 bytes, expected 4"
    );
}

#[test]
fn fill_rect_clears_only_the_rectangle() {
    let mut canvas = vec![9u8; 2 * 2 * 4];
    fill_rect(&mut canvas, &FrameRect { x: 1, y: 1, w: 1, h: 1 }, 2, Rgba { r: 0, g: 0, b: 0, a: 0 });
    let mut expected = vec![9u8; 16];
    for i in 12..16 {
        expected[i] = 0;
    }
    assert_eq!(canvas, expected);
    // Pixels falling outside the buffer are skipped.
    fill_rect(&mut canvas, &FrameRect { x: 0, y: 5, w: 3, h: 3 }, 2, Rgba { r: 1, g: 1, b: 1, a: 1 });
    assert_eq!(canvas, expected);
}

#[test]
fn composite_source_and_over() {
    let mut canvas = vec![5u8; 2 * 1 * 4];
    let sub = [10, 20, 30, 40];
    composite(&mut canvas, &sub, &FrameRect { x: 1, y: 0, w: 1, h: 1 }, 2, BlendOp::Source, &over);
    assert_eq!(canvas, vec![5, 5, 5, 5, 10, 20, 30, 40]);
    let clear = [0, 0, 0, 0, 9, 9, 9, 255];
    composite(&mut canvas, &clear, &FrameRect { x: 0, y: 0, w: 2, h: 1 }, 2, BlendOp::Over, &over);
    assert_eq!(canvas, vec![5, 5, 5, 5, 9, 9, 9, 255]);
}

#[test]
fn compose_frames_applies_dispose_ops() {
    let full = FrameRect { x: 0, y: 0, w: 2, h: 1 };
    let right = FrameRect { x: 1, y: 0, w: 1, h: 1 };
    let frames = vec![
        RawFrame { rect: full, blend: BlendOp::Source, dispose: DisposeOp::Keep, color: ColorType::Rgba, bytes: vec![1, 1, 1, 255, 2, 2, 2, 255] },
        RawFrame { rect: right, blend: BlendOp::Source, dispose: DisposeOp::Previous, color: ColorType::Grayscale, bytes: vec![7] },
        RawFrame { rect: right, blend: BlendOp::Over, dispose: DisposeOp::Background, color: ColorType::GrayscaleAlpha, bytes: vec![0, 0] },
        RawFrame { rect: full, blend: BlendOp::Source, dispose: DisposeOp::Keep, color: ColorType::Rgb, bytes: vec![3, 3, 3, 4, 4, 4] },
    ];
    let out = compose_frames(2, 1, &frames, &over).unwrap();
    assert_eq!(
        out,
        vec![
            vec![1, 1, 1, 255, 2, 2, 2, 255],
            vec![1, 1, 1, 255, 7, 7, 7, 255],
            vec![1, 1, 1, 255, 2, 2, 2, 255],
            vec![3, 3, 3, 255, 4, 4, 4, 255],
        ]
    );
}

#[test]
fn background_dispose_clears_before_next_frame() {
    let right = FrameRect { x: 1, y: 0, w: 1, h: 1 };
    let frames = vec![
        RawFrame { rect: right, blend: BlendOp::Source, dispose: DisposeOp::Background, color: ColorType::Rgba, bytes: vec![8, 8, 8, 8] },
        RawFrame { rect: FrameRect { x: 0, y: 0, w: 1, h: 1 }, blend: BlendOp::Source, dispose: DisposeOp::Keep, color: ColorType::Rgba, bytes: vec![6, 6, 6, 6] },
    ];
    let out = compose_frames(2, 1, &frames, &over).unwrap();
    assert_eq!(out, vec![vec![0, 0, 0, 0, 8, 8, 8, 8], vec![6, 6, 6, 6, 0, 0, 0, 0]]);
}

#[test]
fn compose_frames_stops_at_unsupported_frame() {
    let frames = vec![RawFrame {
        rect: FrameRect { x: 0, y: 0, w: 1, h: 1 },
        blend: BlendOp::Source,
        dispose: DisposeOp::Keep,
        color: ColorType::Indexed,
        bytes: vec![0],
    }];
    assert_eq!(compose_frames(1, 1, &frames, &over), Err(RgbaError::IndexedUnsupported));
}

fn encode_apng() -> Vec<u8> {
    let mut data = Vec::new();
    {
        let mut encoder = png::Encoder::new(&mut data, 2, 1);
        encoder.set_color(png::ColorType::Rgba);
        encoder.set_depth(png::BitDepth::Eight);
        encoder.set_animated(2, 0).unwrap();
        let mut writer = encoder.write_header().unwrap();
        writer.write_image_data(&[255, 0, 0, 255, 0, 255, 0, 255]).unwrap();
        writer.set_frame_dimension(1, 1).unwrap();
        writer.set_frame_position(1, 0).unwrap();
        writer.write_image_data(&[0, 0, 255, 255]).unwrap();
        writer.finish().unwrap();
    }
    data
}

#[test]
fn decode_animated_png() {
    let info = decode_apng_frames(encode_apng(), &over).unwrap();
    assert_eq!(info.width, 2);
    assert_eq!(info.height, 1);
    assert_eq!(info.frames, vec!["/wAA/wD/AP8=".to_string(), "/wAA/wAA//8=".to_string()]);
}

#[test]
fn decode_plain_png_gives_one_frame() {
    let mut data = Vec::new();
    {
        let mut encoder = png::Encoder::new(&mut data, 2, 1);
        encoder.set_color(png::ColorType::Grayscale);
        encoder.set_depth(png::BitDepth::Eight);
        let mut writer = encoder.write_header().unwrap();
        writer.write_image_data(&[10, 0]).unwrap();
        writer.finish().unwrap();
    }
    let info = decode_apng_frames(data, &over).unwrap();
    // 10,10,10,255,0,0,0,255
    assert_eq!(info.frames, vec!["CgoK/wAAAP8=".to_string()]);
}

#[test]
fn decode_rejects_garbage() {
    assert!(decode_apng_frames(vec![1, 2, 3], &over).is_err());
}

fn from_hex(s: &str) -> Vec<u8> {
    (0..s.len()).step_by(2).map(|i| u8::from_str_radix(&s[i..i + 2], 16).unwrap()).collect()
}

#[test]
fn decode_plain_rgba_png_gives_its_one_canvas() {
    let data = from_hex(
        "89504E470D0A1A0A0000000D49484452000000010000000108060000001F15C4890000000D4944415478DA636460F85F0F0002870180EB47BA920000000049454E44AE426082",
    );
    let info = decode_apng_frames(data, &over).unwrap();
    assert_eq!(info.width, 1);
    assert_eq!(info.height, 1);
    // The pixel is (0, 0, 255, 127).
    assert_eq!(info.frames, vec!["AAD/fw==".to_string()]);
}

#[test]
fn decode_stops_early_when_frames_are_missing() {
    let mut data = encode_apng();
    // Cut the file inside the second frame's image data (the fdAT chunk).
    let at = (0..data.len() - 4).find(|&i| &data[i..i + 4] == b"fdAT").unwrap();
    data.truncate(at + 6);
    let info = decode_apng_frames(data, &over).unwrap();
    assert_eq!(info.width, 2);
    assert_eq!(info.frames, vec!["/wAA/wD/AP8=".to_string()]);
}

#[test]
fn decode_rejects_empty_input() {
    assert!(decode_apng_frames(Vec::new(), &over).is_err());
}
