use base64::Engine;
use rbx_studio_mcp::encoding::base64_decode;
use rbx_studio_mcp::picture::{
    encode_pixels, encode_rgba, encode_screenshot, is_encodable, label_file, output_size, try_encode_screenshot,
    ReadReply, RgbaImage,
};

fn pixels(width: u32, height: u32) -> Vec<u8> {
    (0..4 * width as u64 * height as u64).map(|i| (i * 37 + i / 11) as u8).collect()
}

fn picture(width: u32, height: u32) -> RgbaImage {
    RgbaImage::from_raw(width, height, pixels(width, height)).unwrap()
}

fn read(width: u32, height: u32, raw: &[u8]) -> ReadReply {
    let pixels = base64::engine::general_purpose::STANDARD.encode(raw);
    ReadReply { width, height, pixels }
}

#[test]
fn base64_reads_what_the_encoder_writes() {
    let engine = base64::engine::general_purpose::STANDARD;
    for length in 0..70usize {
        let raw: Vec<u8> = (0..length).map(|i| (i * 89 + length) as u8).collect();
        assert_eq!(base64_decode(&engine.encode(&raw)), Ok(raw));
    }
}

#[test]
fn base64_refuses_everything_else() {
    for text in ["A", "AA", "AAA", "AB==", "AAB=", "A===", "=AAA", "AA=A", "AAAA=", "AAA\n", "A-_A", "====", "\u{e9}AA="] {
        assert!(base64_decode(text).is_err(), "{text:?}");
    }
    assert_eq!(base64_decode("QQ=="), Ok(vec![65]));
    assert_eq!(base64_decode("QUI="), Ok(vec![65, 66]));
    assert_eq!(base64_decode("A*AA"), Err("Invalid symbol 42, offset 1.".to_string()));
}

#[test]
fn pictures_need_all_their_pixels() {
    assert!(RgbaImage::from_raw(2, 2, vec![0; 15]).is_none());
    assert!(RgbaImage::from_raw(2, 2, vec![0; 16]).is_some());
    assert!(RgbaImage::from_raw(2, 2, vec![0; 17]).is_some());
    assert!(RgbaImage::from_raw(0, 9, vec![]).is_some());
    assert!(RgbaImage::from_raw(u32::MAX, u32::MAX, vec![0; 9]).is_none());
    // Rows have to be countable even where there are none, as for the picture crate itself.
    for width in [1 << 30, u32::MAX] {
        let taken = image::RgbaImage::from_raw(width, 0, vec![]).is_some();
        assert_eq!(RgbaImage::from_raw(width, 0, vec![]).is_some(), taken);
        assert_eq!(is_encodable(0, width, 0, u32::MAX, "png"), taken);
        assert_eq!(is_encodable(0, width, 0, u32::MAX, "jpeg"), taken);
        if taken {
            assert!(encode_rgba(picture(width, 0), u32::MAX, "png").is_err());
            assert!(encode_rgba(picture(width, 0), u32::MAX, "jpeg").is_err());
        }
    }
}

#[test]
fn sizes_keep_their_proportion() {
    assert_eq!(output_size(1920, 1080, 1280), (1280, 720));
    assert_eq!(output_size(1080, 1920, 1280), (720, 1280));
    assert_eq!(output_size(1280, 720, 1280), (1280, 720));
    assert_eq!(output_size(100, 1, 64), (64, 1));
    assert_eq!(output_size(100, 0, 64), (64, 1));
    assert_eq!(output_size(0, 0, 64), (0, 0));
    assert_eq!(output_size(100, 50, 0), (1, 1));
}

#[test]
fn png_files_give_the_pixels_back() {
    let encoded = encode_rgba(picture(7, 5), 64, "png").unwrap();
    assert_eq!(encoded.mime, "image/png");
    assert_eq!((encoded.width, encoded.height), (7, 5));
    let shown = image::load_from_memory(&encoded.bytes).unwrap().to_rgba8();
    assert_eq!(shown.dimensions(), (7, 5));
    assert_eq!(shown.into_raw(), pixels(7, 5));
}

#[test]
fn large_pictures_are_shrunk() {
    let encoded = encode_rgba(picture(200, 100), 64, "png").unwrap();
    assert_eq!((encoded.width, encoded.height), (64, 32));
    let source = image::RgbaImage::from_raw(200, 100, pixels(200, 100)).unwrap();
    let expected = image::imageops::resize(&source, 64, 32, image::imageops::FilterType::Triangle);
    let shown = image::load_from_memory(&encoded.bytes).unwrap().to_rgba8();
    assert_eq!(shown, expected);
}

#[test]
fn pictures_are_no_larger_than_asked() {
    let encoded = encode_rgba(picture(2, 2), 1, "png").unwrap();
    assert_eq!((encoded.width, encoded.height), (1, 1));
    let encoded = encode_rgba(picture(300, 20), 63, "jpeg").unwrap();
    assert_eq!((encoded.width, encoded.height), (63, 4));
}

#[test]
fn png_files_read_back_through_the_decoder() {
    for (width, height) in [(1, 1), (3, 7), (64, 2)] {
        let encoded = encode_rgba(picture(width, height), 64, "png").unwrap();
        let decoder =
            image::codecs::png::PngDecoder::new(std::io::Cursor::new(&encoded.bytes)).unwrap();
        match image::DynamicImage::from_decoder(decoder).unwrap() {
            image::DynamicImage::ImageRgba8(shown) => {
                assert_eq!(shown.dimensions(), (width, height));
                assert_eq!(shown.into_raw(), pixels(width, height));
            }
            _ => panic!("not an RGBA picture"),
        }
    }
}

#[test]
fn jpeg_files_have_their_markers() {
    let bytes = encode_rgba(picture(9, 9), 64, "jpeg").unwrap().bytes;
    assert_eq!(bytes[..2], [0xff, 0xd8]);
    assert_eq!(bytes[bytes.len() - 2..], [0xff, 0xd9]);
}

#[test]
fn jpeg_files_drop_the_alpha() {
    let encoded = encode_rgba(picture(20, 10), 64, "jpeg").unwrap();
    assert_eq!(encoded.mime, "image/jpeg");
    let mut rgb: Vec<u8> = Vec::new();
    for pixel in pixels(20, 10).chunks(4) {
        rgb.extend_from_slice(&pixel[..3]);
    }
    let source = image::RgbImage::from_raw(20, 10, rgb).unwrap();
    let mut expected: Vec<u8> = Vec::new();
    image::codecs::jpeg::JpegEncoder::new_with_quality(&mut expected, 85)
        .encode_image(&source)
        .unwrap();
    assert_eq!(encoded.bytes, expected);
}

#[test]
fn empty_pictures_are_refused() {
    let message = encode_rgba(picture(0, 5), 64, "png").unwrap_err();
    assert!(message.starts_with("PNG encoding failed: "), "{message}");
    let message = encode_rgba(picture(5, 0), 64, "jpeg").unwrap_err();
    assert!(message.starts_with("JPEG encoding failed: "), "{message}");
    // One that has to be shrunk gets a side of one.
    let encoded = encode_rgba(picture(0, 500), 64, "png").unwrap();
    assert_eq!((encoded.width, encoded.height), (1, 64));
    let encoded = encode_rgba(picture(500, 0), 64, "jpeg").unwrap();
    assert_eq!((encoded.width, encoded.height), (64, 1));
}

#[test]
fn jpeg_files_hold_sides_of_sixteen_bits() {
    assert!(encode_rgba(picture(65535, 1), 65535, "jpeg").is_ok());
    let message = encode_rgba(picture(65536, 1), 70000, "jpeg").unwrap_err();
    assert!(message.starts_with("JPEG encoding failed: "), "{message}");
    assert!(encode_rgba(picture(65536, 1), 70000, "png").is_ok());
}

#[test]
fn screenshots_are_decoded_and_encoded() {
    let encoded = encode_screenshot(&read(6, 4, &pixels(6, 4)), 64, "png").unwrap();
    let shown = image::load_from_memory(&encoded.bytes).unwrap().to_rgba8();
    assert_eq!(shown.into_raw(), pixels(6, 4));
}

#[test]
fn bad_pixels_are_reported() {
    let broken = ReadReply { width: 1, height: 1, pixels: "A*AA".to_string() };
    assert_eq!(
        encode_screenshot(&broken, 64, "png").map(|_| ()),
        Err("Invalid base64 pixel data from Studio: Invalid symbol 42, offset 1.".to_string())
    );
    assert_eq!(
        encode_screenshot(&read(3, 2, &[0; 23]), 64, "png").map(|_| ()),
        Err("Pixel data does not match reported size 3x2".to_string())
    );
    assert_eq!(
        encode_pixels(Err("why".to_string()), 1, 1, 64, "png").map(|_| ()),
        Err("Invalid base64 pixel data from Studio: why".to_string())
    );
}

#[test]
fn bytes_behind_the_last_pixel_do_not_fit_a_png_file() {
    let longer = read(3, 2, &[1; 25]);
    assert!(try_encode_screenshot(&longer, 64, "png").is_none());
    assert!(try_encode_screenshot(&longer, 64, "jpeg").unwrap().is_ok());
    assert!(try_encode_screenshot(&read(3, 2, &[1; 24]), 64, "png").unwrap().is_ok());
    assert!(try_encode_screenshot(&read(3, 2, &[1; 23]), 64, "png").unwrap().is_err());
    assert!(!is_encodable(25, 3, 2, 64, "png"));
    assert!(is_encodable(25, 3, 2, 64, "jpeg"));
    // A picture that is shrunk loses them.
    let longer = read(100, 1, &[1; 401]);
    assert!(try_encode_screenshot(&longer, 64, "png").unwrap().is_ok());
    assert!(!is_encodable(usize::MAX, 100_000, 1, 70_000, "png"));
}

#[test]
fn files_are_labelled() {
    let labelled = label_file(Ok(vec![1, 2]), "jpeg", 3, 4).unwrap();
    assert_eq!(labelled.bytes, vec![1, 2]);
    assert_eq!(labelled.mime, "image/jpeg");
    assert_eq!((labelled.width, labelled.height), (3, 4));
    assert_eq!(label_file(Ok(vec![]), "png", 3, 4).unwrap().mime, "image/png");
    assert_eq!(
        label_file(Err("e".to_string()), "jpeg", 3, 4).map(|_| ()),
        Err("JPEG encoding failed: e".to_string())
    );
    assert_eq!(
        label_file(Err("e".to_string()), "png", 3, 4).map(|_| ()),
        Err("PNG encoding failed: e".to_string())
    );
}
