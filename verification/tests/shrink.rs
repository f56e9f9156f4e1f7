use aerie::image::{
    ImageData, ImageResolver, ImageSource, Preprocessed, ShrinkError, format_for_extension,
    format_for_mime,
};
use base64::Engine;
use image::{ImageEncoder, ImageFormat, ImageReader, RgbImage};
use std::io::Cursor;

fn png(w: u32, h: u32) -> Vec<u8> {
    let img = RgbImage::from_fn(w, h, |x, y| image::Rgb([(x % 256) as u8, (y % 256) as u8, 7]));
    let mut out = Vec::new();
    image::codecs::png::PngEncoder::new(&mut out)
        .write_image(img.as_raw(), w, h, image::ExtendedColorType::Rgb8)
        .unwrap();
    out
}

fn jpeg(w: u32, h: u32) -> Vec<u8> {
    let img = RgbImage::from_fn(w, h, |_, _| image::Rgb([200, 100, 50]));
    let mut out = Vec::new();
    image::codecs::jpeg::JpegEncoder::new(&mut out)
        .write_image(img.as_raw(), w, h, image::ExtendedColorType::Rgb8)
        .unwrap();
    out
}

fn dims(bytes: &[u8]) -> (u32, u32) {
    let img = ImageReader::with_format(Cursor::new(bytes), ImageFormat::Jpeg).decode().unwrap();
    (img.width(), img.height())
}

#[test]
fn formats_by_mime_type_and_extension() {
    assert_eq!(format_for_mime("image/png"), Some("image/png".to_string()));
    assert_eq!(format_for_mime("image/x-tga"), Some("image/x-targa".to_string()));
    assert_eq!(format_for_mime("image/x-portable-bitmap"), Some("image/x-portable-anymap".to_string()));
    assert_eq!(format_for_mime("text/plain"), None);
    assert_eq!(format_for_extension("JPG"), Some("image/jpeg".to_string()));
    assert_eq!(format_for_extension("webp"), Some("image/webp".to_string()));
    assert_eq!(format_for_extension("txt"), None);
}

#[test]
fn small_png_is_reencoded_as_jpeg() {
    let r = ImageResolver::default();
    let (bytes, format) = r.downsample(&png(4, 2), Some("image/png")).unwrap();
    assert_eq!(format, Some("image/jpeg".to_string()));
    assert_eq!(&bytes[..2], &[0xFF, 0xD8]);
    assert_eq!(dims(&bytes), (4, 2));
}

#[test]
fn large_image_is_scaled_into_the_box() {
    let r = ImageResolver::with_max_dim(false, 64);
    let (bytes, format) = r.downsample(&png(200, 100), Some("image/png")).unwrap();
    assert_eq!(format, Some("image/jpeg".to_string()));
    assert_eq!(dims(&bytes), (64, 32));
}

#[test]
fn small_jpeg_is_kept() {
    let r = ImageResolver::default();
    let original = jpeg(8, 8);
    let (bytes, format) = r.downsample(&original, Some("image/jpeg")).unwrap();
    assert_eq!(bytes, original);
    assert_eq!(format, Some("image/jpeg".to_string()));
}

#[test]
fn without_a_box_bytes_are_kept() {
    let r = ImageResolver { allow_local: false, max_size: None };
    let bytes = vec![1, 2, 3];
    assert_eq!(r.downsample(&bytes, Some("image/png")), Ok((bytes.clone(), Some("image/png".to_string()))));
}

#[test]
fn undecodable_bytes_are_an_error() {
    let r = ImageResolver::default();
    assert_eq!(r.downsample(&[1, 2, 3], Some("image/png")), Err(ShrinkError::Undecodable));
    assert_eq!(r.downsample(&png(2, 2), None), Err(ShrinkError::Undecodable));
}

#[test]
fn data_uri_of_fetched_bytes() {
    let r = ImageResolver::default();
    let uri = r.data_uri_from_bytes(&png(3, 3), Some("image/png")).unwrap();
    assert!(uri.starts_with("data:image/jpeg;base64,/9j/"));
    let unbounded = ImageResolver { allow_local: false, max_size: None };
    assert_eq!(unbounded.data_uri_from_bytes(b"Hello", None), Ok("data:;base64,SGVsbG8=".to_string()));
}

#[test]
fn preprocess_raw_url_and_base64() {
    let r = ImageResolver::default();
    let raw = ImageData { data: ImageSource::Raw(png(2, 2)), media_type: Some("image/png".to_string()) };
    match r.preprocess(raw) {
        Preprocessed::Ready(ImageData { data: ImageSource::Base64(t), media_type }) => {
            assert_eq!(media_type, Some("image/jpeg".to_string()));
            let bytes = base64::engine::general_purpose::STANDARD.decode(t).unwrap();
            assert_eq!(&bytes[..2], &[0xFF, 0xD8]);
        }
        other => panic!("unexpected {other:?}"),
    }
    let broken = ImageData { data: ImageSource::Raw(vec![9, 9]), media_type: Some("image/png".to_string()) };
    assert_eq!(
        r.preprocess(broken),
        Preprocessed::Ready(ImageData {
            data: ImageSource::Base64("CQk=".to_string()),
            media_type: Some("image/png".to_string()),
        })
    );
    let url = ImageData { data: ImageSource::Url("https://x/y.png".to_string()), media_type: None };
    assert_eq!(r.preprocess(url), Preprocessed::Fetch("https://x/y.png".to_string()));
    let b64 = ImageData { data: ImageSource::Base64("AA==".to_string()), media_type: None };
    assert_eq!(r.preprocess(b64.clone()), Preprocessed::Ready(b64));
}

#[test]
fn image_from_fetched_bytes() {
    let r = ImageResolver::with_max_dim(false, 16);
    let img = r.image_from_bytes(&png(32, 16), Some("image/png")).unwrap();
    assert_eq!(img.media_type, Some("image/jpeg".to_string()));
    assert!(matches!(img.data, ImageSource::Base64(_)));
}

#[test]
fn extension_table() {
    assert_eq!(format_for_extension("APNG"), Some("image/png".to_string()));
    assert_eq!(format_for_extension("ff"), Some("application/octet-stream".to_string()));
    assert_eq!(format_for_extension("Tif"), Some("image/tiff".to_string()));
    assert_eq!(format_for_extension("pgm"), Some("image/x-portable-anymap".to_string()));
}
