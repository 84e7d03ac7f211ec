use hex_terrain::error::{log_and_return, FormatFault, LoadError};
use hex_terrain::skybox::{
    decode_slot, jpeg_image, png_image, ImgData, JpegFrame, PngFrame, Skybox, TextureBindPoint,
    JPEG_MAX_HEIGHT, PNG_RGB, PNG_RGBA, RGB_BYTES,
};
use hex_terrain::wire::{CompressedImgData, SkyboxCompressed};

fn encode_png(width: u32, height: u32, color: png::ColorType, depth: png::BitDepth, data: &[u8]) -> Vec<u8> {
    let mut out = Vec::new();
    {
        let mut encoder = png::Encoder::new(&mut out, width, height);
        encoder.set_color(color);
        encoder.set_depth(depth);
        let mut writer = encoder.write_header().unwrap();
        writer.write_image_data(data).unwrap();
    }
    out
}

fn rgb_png() -> Vec<u8> {
    encode_png(2, 1, png::ColorType::RGB, png::BitDepth::Eight, &[1, 2, 3, 4, 5, 6])
}

fn rgba_png() -> Vec<u8> {
    encode_png(1, 2, png::ColorType::RGBA, png::BitDepth::Eight, &[1, 2, 3, 4, 5, 6, 7, 8])
}

fn rgb_jpeg() -> Vec<u8> {
    vec![
        255, 216, 255, 224, 0, 16, 74, 70, 73, 70, 0, 1, 1, 1, 0, 1, 0, 1, 0, 0, 255, 219, 0,
        67, 0, 3, 2, 2, 2, 2, 2, 3, 2, 2, 2, 3, 3, 3, 3, 4, 6, 4, 4, 4, 4, 4, 8, 6, 6, 5, 6, 9,
        8, 10, 10, 9, 8, 9, 9, 10, 12, 15, 12, 10, 11, 14, 11, 9, 9, 13, 17, 13, 14, 15, 16, 16,
        17, 16, 10, 12, 18, 19, 18, 16, 19, 15, 16, 16, 16, 255, 219, 0, 67, 1, 3, 3, 3, 4, 3,
        4, 8, 4, 4, 8, 16, 11, 9, 11, 16, 16, 16, 16, 16, 16, 16, 16, 16, 16, 16, 16, 16, 16,
        16, 16, 16, 16, 16, 16, 16, 16, 16, 16, 16, 16, 16, 16, 16, 16, 16, 16, 16, 16, 16, 16,
        16, 16, 16, 16, 16, 16, 16, 16, 16, 16, 16, 16, 16, 16, 255, 192, 0, 17, 8, 0, 16, 0,
        16, 3, 1, 34, 0, 2, 17, 1, 3, 17, 1, 255, 196, 0, 22, 0, 1, 1, 1, 0, 0, 0, 0, 0, 0, 0,
        0, 0, 0, 0, 0, 0, 7, 4, 5, 255, 196, 0, 36, 16, 0, 1, 4, 1, 4, 2, 2, 3, 0, 0, 0, 0, 0,
        0, 0, 0, 1, 2, 3, 4, 6, 5, 7, 8, 18, 19, 17, 34, 0, 20, 9, 49, 50, 255, 196, 0, 21, 1,
        1, 1, 0, 0, 0, 0, 0, 0, 0, 0, 0, 0, 0, 0, 0, 0, 0, 6, 255, 196, 0, 35, 17, 0, 1, 2, 5,
        3, 5, 0, 0, 0, 0, 0, 0, 0, 0, 0, 0, 1, 2, 17, 3, 4, 5, 6, 33, 0, 18, 49, 21, 22, 97,
        129, 225, 255, 218, 0, 12, 3, 1, 0, 2, 17, 3, 17, 0, 63, 0, 20, 166, 210, 106, 27, 115,
        193, 230, 19, 18, 212, 149, 28, 243, 17, 99, 228, 37, 101, 190, 186, 90, 236, 105, 69,
        64, 177, 229, 32, 178, 84, 165, 31, 210, 202, 184, 250, 242, 32, 171, 150, 61, 151, 108,
        147, 53, 230, 155, 119, 215, 230, 109, 167, 23, 129, 165, 87, 28, 127, 28, 234, 113,
        226, 75, 57, 215, 227, 34, 83, 242, 26, 105, 222, 212, 113, 74, 56, 180, 130, 232, 75,
        137, 42, 113, 105, 30, 205, 45, 33, 59, 241, 239, 185, 26, 116, 172, 238, 161, 90, 117,
        142, 213, 72, 172, 101, 91, 133, 139, 129, 133, 123, 33, 41, 152, 103, 169, 107, 148,
        185, 73, 101, 79, 185, 200, 133, 41, 17, 75, 129, 42, 240, 122, 217, 242, 60, 128, 126,
        85, 190, 13, 246, 98, 161, 64, 204, 232, 230, 154, 61, 92, 183, 67, 179, 215, 122, 101,
        88, 177, 217, 81, 33, 136, 191, 100, 184, 211, 241, 195, 104, 4, 41, 192, 208, 254, 187,
        60, 2, 224, 60, 84, 7, 180, 189, 217, 123, 84, 230, 39, 251, 110, 223, 148, 96, 20, 130,
        98, 19, 141, 184, 82, 152, 40, 55, 5, 137, 114, 121, 96, 228, 50, 137, 111, 195, 130,
        142, 167, 82, 140, 234, 32, 141, 190, 120, 25, 31, 7, 173, 127, 255, 217
    ]
}

/// The JPEG image with the height in its frame header replaced by `height`.
fn jpeg_of_height(height: u16) -> Vec<u8> {
    let mut bytes = rgb_jpeg();
    let at = (0..bytes.len() - 1).find(|i| bytes[*i] == 0xFF && bytes[*i + 1] == 0xC0).unwrap();
    bytes[at + 5] = (height >> 8) as u8;
    bytes[at + 6] = (height & 0xFF) as u8;
    bytes
}

fn six_pngs() -> [CompressedImgData; 6] {
    [
        CompressedImgData::Png(rgb_png()),
        CompressedImgData::Png(rgba_png()),
        CompressedImgData::Png(rgb_png()),
        CompressedImgData::Jpeg(rgb_jpeg()),
        CompressedImgData::Png(rgb_png()),
        CompressedImgData::Png(rgba_png()),
    ]
}

#[test]
fn rgb_png_decodes() {
    let img = decode_slot(&CompressedImgData::Png(rgb_png()), 0).unwrap();
    assert_eq!(img.get_width(), 2);
    assert_eq!(img.get_height(), 1);
    assert!(!img.has_alpha());
    assert!(img.has_eight_bit_channels());
    assert_eq!(img.get_data(), &vec![1u8, 2, 3, 4, 5, 6]);
}

#[test]
fn rgba_png_decodes() {
    let img = decode_slot(&CompressedImgData::Png(rgba_png()), 3).unwrap();
    assert_eq!(img.get_width(), 1);
    assert_eq!(img.get_height(), 2);
    assert!(img.has_alpha());
    assert!(img.has_eight_bit_channels());
    assert_eq!(img.get_data(), &vec![1u8, 2, 3, 4, 5, 6, 7, 8]);
}

#[test]
fn rgb_jpeg_decodes() {
    let img = decode_slot(&CompressedImgData::Jpeg(rgb_jpeg()), 5).unwrap();
    assert_eq!(img.get_width(), 16);
    assert_eq!(img.get_height(), 16);
    assert!(!img.has_alpha());
    assert!(img.has_eight_bit_channels());
    assert_eq!(img.get_data().len(), 16 * 16 * 3);
}

#[test]
fn gray_png_is_not_supported() {
    let gray = encode_png(2, 2, png::ColorType::Grayscale, png::BitDepth::Eight, &[1, 2, 3, 4]);
    match decode_slot(&CompressedImgData::Png(gray), 4) {
        Err(LoadError::UnsupportedFormat(4, FormatFault::ColorType)) => {},
        other => panic!("{:?}", other.map(|_| ())),
    }
}

#[test]
fn broken_png_is_the_decoders_failure() {
    match decode_slot(&CompressedImgData::Png(vec![1, 2, 3]), 2) {
        Err(LoadError::Png(2, _)) => {},
        other => panic!("{:?}", other.map(|_| ())),
    }
    match decode_slot(&CompressedImgData::Png(rgb_jpeg()), 1) {
        Err(LoadError::Png(1, _)) => {},
        other => panic!("{:?}", other.map(|_| ())),
    }
}

#[test]
fn broken_jpeg_is_the_decoders_failure() {
    match decode_slot(&CompressedImgData::Jpeg(vec![1, 2, 3]), 1) {
        Err(LoadError::Jpeg(1, _)) => {},
        other => panic!("{:?}", other.map(|_| ())),
    }
    match decode_slot(&CompressedImgData::Jpeg(rgb_png()), 0) {
        Err(LoadError::Jpeg(0, _)) => {},
        other => panic!("{:?}", other.map(|_| ())),
    }
}

#[test]
fn empty_slot_is_missing_image_data() {
    for slot in 0..6usize {
        match decode_slot(&CompressedImgData::NoData, slot) {
            Err(LoadError::MissingImageData(s)) => assert_eq!(s, slot),
            other => panic!("{:?}", other.map(|_| ())),
        }
    }
}

#[test]
fn skybox_with_an_empty_slot_names_that_slot() {
    for slot in 0..6usize {
        let mut images = six_pngs();
        images[slot] = CompressedImgData::NoData;
        match Skybox::from_compressed(&SkyboxCompressed::new(images)) {
            Err(LoadError::MissingImageData(s)) => assert_eq!(s, slot),
            other => panic!("{:?}", other.map(|_| ())),
        }
    }
}

#[test]
fn skybox_names_the_first_empty_slot() {
    let mut images = six_pngs();
    images[2] = CompressedImgData::NoData;
    images[4] = CompressedImgData::NoData;
    match Skybox::from_compressed(&SkyboxCompressed::new(images)) {
        Err(LoadError::MissingImageData(2)) => {},
        other => panic!("{:?}", other.map(|_| ())),
    }
}

#[test]
fn default_skybox_does_not_load() {
    match Skybox::from_compressed(&SkyboxCompressed::default()) {
        Err(LoadError::MissingImageData(0)) => {},
        other => panic!("{:?}", other.map(|_| ())),
    }
}

#[test]
fn skybox_stops_at_the_first_failure() {
    let mut images = six_pngs();
    images[1] = CompressedImgData::Png(vec![0; 10]);
    images[3] = CompressedImgData::NoData;
    match Skybox::from_compressed(&SkyboxCompressed::new(images)) {
        Err(LoadError::Png(1, _)) => {},
        other => panic!("{:?}", other.map(|_| ())),
    }
}

#[test]
fn skybox_of_six_images_loads() {
    let skybox = Skybox::from_compressed(&SkyboxCompressed::new(six_pngs())).unwrap();
    let images = skybox.get_images();
    assert_eq!(images[0].get_width(), 2);
    assert!(!images[0].has_alpha());
    assert_eq!(images[1].get_height(), 2);
    assert!(images[1].has_alpha());
    assert_eq!(images[3].get_width(), 16);
    assert_eq!(images[5].get_data(), &vec![1u8, 2, 3, 4, 5, 6, 7, 8]);
}

#[test]
fn default_skybox_holds_empty_images() {
    let skybox = Skybox::default();
    for img in skybox.get_images().iter() {
        assert_eq!(*img, ImgData::default());
        assert_eq!(img.get_width(), 0);
        assert_eq!(img.get_height(), 0);
        assert!(img.get_data().is_empty());
        assert!(!img.has_alpha());
        assert!(!img.has_eight_bit_channels());
    }
}

#[test]
fn images_come_with_their_sides() {
    let skybox = Skybox::from_compressed(&SkyboxCompressed::new(six_pngs())).unwrap();
    let mut iter = skybox.img_iter();
    let expected = [
        TextureBindPoint::TextureCubeMapPositiveX,
        TextureBindPoint::TextureCubeMapNegativeX,
        TextureBindPoint::TextureCubeMapPositiveY,
        TextureBindPoint::TextureCubeMapNegativeY,
        TextureBindPoint::TextureCubeMapPositiveZ,
        TextureBindPoint::TextureCubeMapNegativeZ,
    ];
    for (i, side) in expected.iter().enumerate() {
        let (img, tbp) = iter.next().unwrap();
        assert_eq!(tbp, *side);
        assert_eq!(img, &skybox.get_images()[i]);
    }
    assert!(iter.next().is_none());
    assert!(iter.next().is_none());
}

#[test]
fn bind_point_codes() {
    assert_eq!(TextureBindPoint::Texture2d.code(), 0x0DE1);
    assert_eq!(TextureBindPoint::TextureCubeMapPositiveX.code(), 0x8515);
    assert_eq!(TextureBindPoint::TextureCubeMapNegativeX.code(), 0x8516);
    assert_eq!(TextureBindPoint::TextureCubeMapPositiveY.code(), 0x8517);
    assert_eq!(TextureBindPoint::TextureCubeMapNegativeY.code(), 0x8518);
    assert_eq!(TextureBindPoint::TextureCubeMapPositiveZ.code(), 0x8519);
    assert_eq!(TextureBindPoint::TextureCubeMapNegativeZ.code(), 0x851A);
}

#[test]
fn image_holds_what_it_is_given() {
    let img = ImgData::new(vec![9, 8, 7], 3, 1, true, false);
    assert_eq!(img.get_data(), &vec![9u8, 8, 7]);
    assert_eq!(img.get_width(), 3);
    assert_eq!(img.get_height(), 1);
    assert!(img.has_alpha());
    assert!(!img.has_eight_bit_channels());
}

fn png_frame(color_type: u8, bit_depth: u8) -> PngFrame {
    PngFrame { pixels: vec![1], width: 5, height: 6, color_type, bit_depth }
}

#[test]
fn format_numbers() {
    assert_eq!(PNG_RGB, png::ColorType::RGB as u8);
    assert_eq!(PNG_RGBA, png::ColorType::RGBA as u8);
    assert_eq!(RGB_BYTES, 3);
}

#[test]
fn png_image_by_color_and_depth() {
    let img = png_image(png_frame(2, 8), 0).unwrap();
    assert_eq!(img, ImgData::new(vec![1], 5, 6, false, true));
    let img = png_image(png_frame(6, 16), 0).unwrap();
    assert_eq!(img, ImgData::new(vec![1], 5, 6, true, false));
    let img = png_image(png_frame(6, 8), 0).unwrap();
    assert_eq!(img, ImgData::new(vec![1], 5, 6, true, true));
    let img = png_image(png_frame(2, 16), 0).unwrap();
    assert_eq!(img, ImgData::new(vec![1], 5, 6, false, false));
    for color in [0u8, 3, 4, 1, 5, 7, 255] {
        match png_image(png_frame(color, 1), 3) {
            Err(LoadError::UnsupportedFormat(3, FormatFault::ColorType)) => {},
            other => panic!("{:?}", other),
        }
    }
    for depth in [1u8, 2, 4, 0, 32] {
        match png_image(png_frame(2, depth), 4) {
            Err(LoadError::UnsupportedFormat(4, FormatFault::BitDepth)) => {},
            other => panic!("{:?}", other),
        }
    }
}

#[test]
fn jpeg_image_by_format() {
    let img = jpeg_image(JpegFrame { pixels: vec![1, 2], info: Some((7, 9, 3)) }, 0).unwrap();
    assert_eq!(img, ImgData::new(vec![1, 2], 7, 9, false, true));
    for pixel_bytes in [1usize, 4, 0] {
        match jpeg_image(JpegFrame { pixels: vec![1, 2], info: Some((7, 9, pixel_bytes)) }, 5) {
            Err(LoadError::UnsupportedFormat(5, FormatFault::PixelFormat)) => {},
            other => panic!("{:?}", other),
        }
    }
    match jpeg_image(JpegFrame { pixels: vec![1, 2], info: None }, 2) {
        Err(LoadError::Jpeg(2, jpeg_decoder::Error::Format(text))) => {
            assert_eq!(text, "Could not read JPEG info of skybox image");
        },
        other => panic!("{:?}", other),
    }
}

#[test]
fn failure_texts() {
    assert_eq!(LoadError::MissingImageData(1).message(), "Missing image data for skybox");
    assert_eq!(
        LoadError::UnsupportedFormat(0, FormatFault::ColorType).message(),
        "Color type of skybox image is not RGB(A)"
    );
    assert_eq!(
        LoadError::UnsupportedFormat(0, FormatFault::BitDepth).message(),
        "Bit depth of skybox image is not 8 nor 16"
    );
    let no_info = jpeg_image(JpegFrame { pixels: Vec::new(), info: None }, 0).unwrap_err();
    assert_eq!(no_info.message(), "invalid JPEG format: Could not read JPEG info of skybox image");
    assert_eq!(
        LoadError::UnsupportedFormat(0, FormatFault::PixelFormat).message(),
        "JPEG data for skybox image is not in RGB888 format"
    );
}

#[test]
fn decoder_failures_carry_the_decoders_text() {
    let e = decode_slot(&CompressedImgData::Png(vec![1, 2, 3]), 2).unwrap_err();
    assert_eq!(e.get_slot(), 2);
    match &e {
        LoadError::Png(_, inner) => assert_eq!(e.message(), format!("{}", inner)),
        other => panic!("{:?}", other),
    }
    let e = decode_slot(&CompressedImgData::Jpeg(vec![1, 2, 3]), 4).unwrap_err();
    assert_eq!(e.get_slot(), 4);
    match &e {
        LoadError::Jpeg(_, inner) => assert_eq!(e.message(), format!("{}", inner)),
        other => panic!("{:?}", other),
    }
}

#[test]
fn failure_slots() {
    assert_eq!(LoadError::MissingImageData(3).get_slot(), 3);
    assert_eq!(LoadError::UnsupportedFormat(5, FormatFault::BitDepth).get_slot(), 5);
}

#[test]
fn status_codes() {
    assert_eq!(log_and_return(Ok(())), 0);
    assert_eq!(log_and_return(Err(LoadError::MissingImageData(0))), 1);
    assert_eq!(log_and_return(Err(LoadError::UnsupportedFormat(1, FormatFault::ColorType))), 1);
}

#[test]
fn tallest_jpeg_height() {
    assert_eq!(JPEG_MAX_HEIGHT, 65528);
}

#[test]
fn jpeg_of_the_height_in_its_header_decodes() {
    let img = decode_slot(&CompressedImgData::Jpeg(jpeg_of_height(16)), 0).unwrap();
    assert_eq!(img.get_height(), 16);
}

#[test]
fn too_tall_jpeg_is_not_handed_to_the_decoder() {
    for height in [65529u16, 65530, 65535] {
        match decode_slot(&CompressedImgData::Jpeg(jpeg_of_height(height)), 3) {
            Err(LoadError::UnsupportedFormat(3, FormatFault::JpegHeight)) => {},
            other => panic!("{:?}", other.map(|_| ())),
        }
    }
}

#[test]
fn skybox_with_a_too_tall_jpeg_names_its_slot() {
    let mut images = six_pngs();
    images[4] = CompressedImgData::Jpeg(jpeg_of_height(65535));
    images[5] = CompressedImgData::NoData;
    match Skybox::from_compressed(&SkyboxCompressed::new(images)) {
        Err(LoadError::UnsupportedFormat(4, FormatFault::JpegHeight)) => {},
        other => panic!("{:?}", other.map(|_| ())),
    }
}

#[test]
fn too_tall_text() {
    assert_eq!(
        LoadError::UnsupportedFormat(0, FormatFault::JpegHeight).message(),
        "JPEG data for skybox image is too tall"
    );
}
