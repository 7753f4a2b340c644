use image::png::PNGDecoder;
use image::{ColorType, DecodingResult, ImageDecoder};
use mandelbrot::encode::encoded;
use mandelbrot::{encode_image, EncodeError};
use std::io::{Error, ErrorKind};

fn decode(file: &[u8]) -> ((u32, u32), ColorType, Vec<u8>) {
    let mut decoder = PNGDecoder::new(file);
    let dimensions = decoder.dimensions().unwrap();
    let color = decoder.colortype().unwrap();
    match decoder.read_image().unwrap() {
        DecodingResult::U8(pixels) => (dimensions, color, pixels),
        DecodingResult::U16(_) => panic!("a picture of bytes was decoded as one of words"),
    }
}

#[test]
fn a_picture_comes_back_from_its_file() {
    let pixels: Vec<u8> = vec![0, 50, 100, 150, 200, 250];
    let file = encode_image(&pixels, (3, 2)).unwrap();
    assert_eq!(&file[..8], &[137, 80, 78, 71, 13, 10, 26, 10]);
    assert_ne!(file, pixels);
    let (dimensions, color, decoded) = decode(&file);
    assert_eq!(dimensions, (3, 2));
    assert_eq!(color, ColorType::Gray(8));
    assert_eq!(decoded, pixels);
}

#[test]
fn width_and_height_are_not_exchanged() {
    let pixels: Vec<u8> = (0..35).collect();
    let wide = encode_image(&pixels, (7, 5)).unwrap();
    let tall = encode_image(&pixels, (5, 7)).unwrap();
    assert_eq!(decode(&wide).0, (7, 5));
    assert_eq!(decode(&tall).0, (5, 7));
    assert_eq!(decode(&wide).2, pixels);
    assert_eq!(decode(&tall).2, pixels);
}

#[test]
fn encoding_twice_gives_the_same_file() {
    let pixels: Vec<u8> = (0..200).collect();
    assert_eq!(encode_image(&pixels, (20, 10)).unwrap(), encode_image(&pixels, (20, 10)).unwrap());
}

#[test]
fn a_picture_without_pixels_is_refused() {
    assert!(matches!(encode_image(&[], (0, 0)), Err(EncodeError::Dimensions)));
    assert!(matches!(encode_image(&[1, 2, 3], (0, 3)), Err(EncodeError::Dimensions)));
    assert!(matches!(encode_image(&[1, 2, 3], (3, 0)), Err(EncodeError::Dimensions)));
}

#[test]
fn a_buffer_that_is_too_short_is_refused() {
    assert!(matches!(encode_image(&[1, 2, 3, 4, 5], (3, 2)), Err(EncodeError::Dimensions)));
    assert!(matches!(encode_image(&[], (1, 1)), Err(EncodeError::Dimensions)));
    assert!(encode_image(&[1, 2, 3, 4, 5, 6], (3, 2)).is_ok());
}

#[test]
fn a_side_is_encoded_as_a_number_of_32_bits() {
    let pixels: Vec<u8> = vec![1, 2, 3, 4, 5, 6];
    let wrapped = (1usize << 32) + 3;
    let file = encode_image(&pixels, (wrapped, 2)).unwrap();
    assert_eq!(file, encode_image(&pixels, (3, 2)).unwrap());
    assert!(matches!(encode_image(&pixels, (1usize << 32, 2)), Err(EncodeError::Dimensions)));
}

#[test]
fn what_the_encoder_returned_is_passed_on() {
    assert!(matches!(encoded(Ok(vec![1, 2, 3])), Ok(bytes) if bytes == vec![1, 2, 3]));
    match encoded(Err(Error::new(ErrorKind::Other, "out of ink"))) {
        Err(EncodeError::Encoder(error)) => {
            assert_eq!(error.kind(), ErrorKind::Other);
            assert_eq!(error.to_string(), "out of ink");
        }
        _ => panic!("an error of the encoder was not passed on"),
    }
}
