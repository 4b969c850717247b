use dbgm::hashing::{encode_base64_url, hash_content, hash_pixels};
use dbgm::imaging::{crop_image_pixels, crop_image_png, image_dimensions};

fn png_bytes(w: u32, h: u32, seed: u8) -> Vec<u8> {
    let mut img = image::RgbaImage::new(w, h);
    for (x, y, p) in img.enumerate_pixels_mut() {
        *p = image::Rgba([seed, (x % 256) as u8, (y % 256) as u8, 255]);
    }
    let mut cur = std::io::Cursor::new(Vec::new());
    image::DynamicImage::ImageRgba8(img)
        .write_to(&mut cur, image::ImageOutputFormat::Png)
        .unwrap();
    cur.into_inner()
}

fn hex(bytes: &[u8]) -> String {
    let mut s = String::new();
    for b in bytes {
        s.push_str(&format!("{:02x}", b));
    }
    s
}

#[test]
fn content_digest_of_empty_input() {
    // BLAKE2b with a 32-byte output over the empty string
    let d = hash_content(&Vec::new());
    assert_eq!(
        hex(&d),
        "0e5751c026e543b2e8ab2eb06099daa1d1e5df47778f7787faab45cdf12fe3a8"
    );
}

#[test]
fn content_digest_is_32_bytes_and_input_sensitive() {
    let d1 = hash_content(&vec![1, 2, 3]);
    let d2 = hash_content(&vec![1, 2, 3]);
    let d3 = hash_content(&vec![1, 2, 4]);
    assert_eq!(d1.len(), 32);
    assert_eq!(d1, d2);
    assert_ne!(d1, d3);
    assert_ne!(d1, vec![1, 2, 3]);
}

#[test]
fn pixel_digest_of_empty_input() {
    // BLAKE2b-512 over the empty string
    let d = hash_pixels(&Vec::new());
    assert_eq!(
        hex(&d),
        "786a02f742015903c6c6fd852552d272912f4740e15847618a86e217f71f5419\
         d25e1031afee585313896444934eb04b903a685b1448b755d56f701afe9be2ce"
    );
}

#[test]
fn pixel_digest_is_64_bytes() {
    assert_eq!(hash_pixels(&vec![0]).len(), 64);
}

#[test]
fn base64_url_exact_values() {
    assert_eq!(encode_base64_url(&b"hello".to_vec()), "aGVsbG8=");
    // an input that exercises the URL-safe alphabet: 62 -> '-', 63 -> '_'
    assert_eq!(encode_base64_url(&vec![0xfb, 0xff]), "-_8=");
    assert_eq!(encode_base64_url(&Vec::new()), "");
}

#[test]
fn image_dimensions_of_a_png() {
    let bytes = png_bytes(3, 2, 1);
    assert_eq!(image_dimensions(&bytes), Some((3, 2)));
}

#[test]
fn image_dimensions_of_garbage() {
    assert_eq!(image_dimensions(&vec![1, 2, 3, 4]), None);
    assert_eq!(image_dimensions(&Vec::new()), None);
}

#[test]
fn crop_pixels_cuts_the_rectangle() {
    let bytes = png_bytes(2, 2, 5);
    // the pixel at (1, 0) is [5, 1, 0, 255]
    let pixels = crop_image_pixels(&bytes, 1, 0, 1, 1).unwrap();
    assert_eq!(pixels, vec![5, 1, 0, 255]);
}

#[test]
fn crop_pixels_fails_on_garbage() {
    assert!(crop_image_pixels(&vec![1, 2, 3], 0, 0, 1, 1).is_none());
}

#[test]
fn crop_png_encodes_the_rectangle() {
    let bytes = png_bytes(3, 2, 9);
    let png = crop_image_png(&bytes, 0, 0, 2, 1).unwrap();
    assert_ne!(png, bytes);
    let img = image::load_from_memory(&png).unwrap();
    assert_eq!(image::GenericImageView::dimensions(&img), (2, 1));
}

#[test]
fn crop_png_fails_on_garbage() {
    assert!(crop_image_png(&vec![1, 2, 3], 0, 0, 1, 1).is_none());
}
