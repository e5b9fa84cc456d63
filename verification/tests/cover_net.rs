use pocket_calibre::cover::{decode_cover, CoverError};
use pocket_calibre::net::{connect_outcome, is_connected};

fn jpeg_2x1() -> Vec<u8> {
    let mut out = Vec::new();
    let pixels = [10u8, 20, 30, 40, 50, 60];
    image::codecs::jpeg::JpegEncoder::new(&mut out)
        .encode(&pixels, 2, 1, image::ExtendedColorType::Rgb8)
        .unwrap();
    out
}

#[test]
fn decodes_jpeg_to_rgb() {
    let data = jpeg_2x1();
    let (rgb, w, h) = decode_cover(&data).unwrap();
    assert_eq!((w, h), (2, 1));
    assert_eq!(rgb.len(), 3 * w as usize * h as usize);
    assert_ne!(rgb, data);
}

#[test]
fn rejects_non_jpeg() {
    assert_eq!(decode_cover(&[0, 1, 2, 3]), Err(CoverError::NotJpeg));
    assert_eq!(decode_cover(&[]), Err(CoverError::NotJpeg));
}

#[test]
fn connected_bit() {
    assert!(is_connected(1));
    assert!(is_connected(0x7));
    assert!(!is_connected(0));
    assert!(!is_connected(0x6));
}

#[test]
fn connect_outcomes() {
    assert_eq!(connect_outcome(0), Ok(()));
    assert_eq!(
        connect_outcome(-3),
        Err("не удалось подключиться к сети (код -3)".to_string())
    );
}
