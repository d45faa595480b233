use twobpp::{int_to_2bpp, twobpp, EncodeError};

#[test]
fn it_converts_arrays() {
    let test_nums: Vec<u8> = vec![
        0, 3, 3, 3, 3, 3, 0, 0,
        2, 2, 0, 0, 0, 2, 2, 0,
        1, 1, 0, 0, 0, 1, 1, 0,
        2, 2, 2, 2, 2, 2, 2, 0,
        3, 3, 0, 0, 0, 3, 3, 0,
        2, 2, 0, 0, 0, 2, 2, 0,
        1, 1, 0, 0, 0, 1, 1, 0,
        0, 0, 0, 0, 0, 0, 0, 0,
    ];
    let expected: Vec<u8> = vec![
        0x7c, 0x7c, 0x00, 0xc6, 0xc6, 0x00, 0x00, 0xfe, 0xc6, 0xc6, 0x00, 0xc6, 0xc6, 0x00, 0x00,
        0x00,
    ];
    assert_eq!(expected, twobpp(test_nums).unwrap());
}

#[test]
fn it_checks_length() {
    let too_many_nums: Vec<u8> = vec![1; 65];
    let just_enough_nums: Vec<u8> = vec![1; 64];
    match twobpp(too_many_nums) {
        Err(_) => (),
        Ok(_) => panic!(),
    };
    match twobpp(just_enough_nums) {
        Err(err) => panic!("{:?}", err),
        Ok(_) => (),
    };
}

#[test]
fn it_converts_ints() {
    let expected: Vec<(u8, u8)> = vec![(0, 0), (128, 0), (0, 128), (128, 128)];
    for n in 0..=3 as usize {
        let res = match int_to_2bpp(n) {
            Ok((a, b)) => (a, b),
            Err(err) => panic!("{:?}", err),
        };
        assert_eq!(expected[n], res);
    }
}

#[test]
fn all_ones_give_full_low_planes() {
    let pixels: Vec<u8> = vec![1; 64];
    let mut expected: Vec<u8> = Vec::new();
    for _ in 0..8 {
        expected.push(0xff);
        expected.push(0x00);
    }
    assert_eq!(twobpp(pixels), Ok(expected));
}

#[test]
fn all_threes_give_full_planes() {
    let pixels: Vec<u16> = vec![3; 64];
    assert_eq!(twobpp(pixels), Ok(vec![0xff; 16]));
}

#[test]
fn all_zeros_give_empty_planes() {
    let pixels: Vec<u64> = vec![0; 64];
    assert_eq!(twobpp(pixels), Ok(vec![0x00; 16]));
}

#[test]
fn row_zero_is_the_most_significant_bit() {
    let mut pixels: Vec<u32> = vec![0; 64];
    pixels[0] = 1;
    pixels[8 + 7] = 2;
    pixels[7 * 8 + 3] = 3;
    let mut expected: Vec<u8> = vec![0; 16];
    expected[0] = 0x80;
    expected[3] = 0x01;
    expected[14] = 0x10;
    expected[15] = 0x10;
    assert_eq!(twobpp(pixels), Ok(expected));
}

#[test]
fn wrong_lengths_are_length_errors() {
    for n in [0usize, 1, 63, 65, 128] {
        let pixels: Vec<u8> = vec![1; n];
        assert_eq!(twobpp(pixels), Err(EncodeError::LengthError));
    }
    let bad_values: Vec<u64> = vec![1000; 63];
    assert_eq!(twobpp(bad_values), Err(EncodeError::LengthError));
}

#[test]
fn sixty_three_and_sixty_five_fail() {
    let short: Vec<u8> = vec![2; 63];
    let long: Vec<u8> = vec![2; 65];
    assert_eq!(twobpp(short), Err(EncodeError::LengthError));
    assert_eq!(twobpp(long), Err(EncodeError::LengthError));
}

#[test]
fn byte_values_above_three_are_range_errors() {
    for v in [4u8, 17, 128, 255] {
        let mut pixels: Vec<u8> = vec![2; 64];
        pixels[37] = v;
        assert_eq!(twobpp(pixels), Err(EncodeError::RangeError));
    }
}

#[test]
fn values_wider_than_a_byte_are_cast_errors() {
    let mut pixels: Vec<u16> = vec![0; 64];
    pixels[5] = 256;
    assert_eq!(twobpp(pixels), Err(EncodeError::CastError));
}

#[test]
fn first_invalid_pixel_in_scan_order_decides() {
    // Column 0 is scanned from row 7 up to row 0.
    let mut pixels: Vec<u32> = vec![0; 64];
    pixels[2] = 300;
    pixels[6] = 9;
    assert_eq!(twobpp(pixels), Err(EncodeError::RangeError));
    let mut pixels: Vec<u32> = vec![0; 64];
    pixels[6] = 300;
    pixels[2] = 9;
    assert_eq!(twobpp(pixels), Err(EncodeError::CastError));
    let mut pixels: Vec<u32> = vec![0; 64];
    pixels[8] = 300;
    pixels[7] = 9;
    assert_eq!(twobpp(pixels), Err(EncodeError::RangeError));
}

#[test]
fn encoding_is_deterministic() {
    let pixels: Vec<usize> = (0..64).map(|i| (i * 7 + i / 5) % 4).collect();
    let first = twobpp(pixels.clone());
    let second = twobpp(pixels);
    assert!(first.is_ok());
    assert_eq!(first, second);
}

#[test]
fn pixel_mapping_is_exact() {
    assert_eq!(int_to_2bpp(0u8), Ok((0, 0)));
    assert_eq!(int_to_2bpp(1u16), Ok((128, 0)));
    assert_eq!(int_to_2bpp(2u32), Ok((0, 128)));
    assert_eq!(int_to_2bpp(3u64), Ok((128, 128)));
}

#[test]
fn pixel_errors_are_distinguished() {
    assert_eq!(int_to_2bpp(4u8), Err(EncodeError::RangeError));
    assert_eq!(int_to_2bpp(255u8), Err(EncodeError::RangeError));
    assert_eq!(int_to_2bpp(256u16), Err(EncodeError::CastError));
    assert_eq!(int_to_2bpp(257u32), Err(EncodeError::CastError));
    assert_eq!(int_to_2bpp(258u64), Err(EncodeError::CastError));
    assert_eq!(int_to_2bpp(u64::MAX), Err(EncodeError::CastError));
    assert_eq!(int_to_2bpp(usize::MAX), Err(EncodeError::CastError));
}
