//! Field codec: encode/decode round trips and error cases for every kind.

use st2150::field::Field;

#[test]
fn test_new() {
    let f = Field::new(&[1, 2, 3]);
    assert_eq!(f.to_frame(), vec![1, 2, 3]);
}

#[test]
fn test_encode_binary() {
    let f = Field::encode_binary(0xAB);
    assert_eq!(f.to_frame(), vec![0xAB]);
}

#[test]
fn test_decode_binary() {
    for value in [0_u8, 10_u8, 100_u8] {
        assert_eq!(Field::encode_binary(value).decode_binary(), Ok(value));
    }
}

#[test]
fn test_error_decode_binary() {
    let f = Field::new(&[]);
    assert!(f.decode_binary().is_err());
}

#[test]
fn test_encode_number() {
    // 0, width=1 -> '0'
    let f = Field::encode_number(0, 1);
    assert_eq!(f.to_frame(), vec![0x30]);

    // 0, width=2 -> '00'
    let f = Field::encode_number(0, 2);
    assert_eq!(f.to_frame(), vec![0x30, 0x30]);

    // 5, width=1 -> '5'
    let f = Field::encode_number(5, 1);
    assert_eq!(f.to_frame(), vec![0x35]);

    // 5, width=2 -> '05'
    let f = Field::encode_number(5, 2);
    assert_eq!(f.to_frame(), vec![0x30, 0x35]);

    // 5, width=2 -> '05'
    let f = Field::encode_number(5, 2);
    assert_eq!(f.to_frame(), vec![0x30, 0x35]);

    // 56, width=2 -> '56'
    let f = Field::encode_number(56, 2);
    assert_eq!(f.to_frame(), vec![0x35, 0x36]);
}

#[test]
fn test_decode_number() {
    // Values that fit a u8
    for value in [0_u8, 10_u8, 100_u8] {
        assert_eq!(
            Field::encode_number(value as u64, 3).decode_number_u8(),
            Ok(value)
        );
    }
    // Small signed-range values through the unsigned codec
    for value in [0_i8, 10_i8, 100_i8] {
        assert_eq!(
            Field::encode_number(value as u64, 3).decode_number(),
            Ok(value as u64)
        );
    }
    // Values that fit a u16
    for value in [0_u16, 10_u16, 1_000_u16, 10_000_u16] {
        assert_eq!(
            Field::encode_number(value as u64, 5).decode_number_u16(),
            Ok(value)
        );
    }
    for value in [0_i16, 10_i16, 1_000_i16, 10_000_i16] {
        assert_eq!(
            Field::encode_number(value as u64, 5).decode_number(),
            Ok(value as u64)
        );
    }
    // Values that fit a u32
    for value in [
        0_u32,
        10_u32,
        1000_u32,
        10_000_u32,
        100_000_u32,
        1_000_000_000_u32,
    ] {
        assert_eq!(
            Field::encode_number(value as u64, 10).decode_number_u32(),
            Ok(value)
        );
    }
    for value in [
        0_i32,
        10_i32,
        1000_i32,
        10_000_i32,
        100_000_i32,
        1_000_000_000_i32,
    ] {
        assert_eq!(
            Field::encode_number(value as u64, 10).decode_number(),
            Ok(value as u64)
        );
    }
}

#[test]
fn test_error_decode_number() {
    // Not only digits 0-9
    assert!(Field::new(&[b'1', 0x00, b'2']).decode_number_u8().is_err());

    // Too large for a u16
    assert!(Field::new(&[b'9', b'9', b'9', b'9', b'9', b'9'])
        .decode_number_u16()
        .is_err());
}

#[test]
fn test_encode_signed_number() {
    // 0, width=3 -> '+00'
    let f = Field::encode_signed_number(0, 3);
    assert_eq!(f.to_frame(), vec![b'+', 0x30, 0x30]);

    // 12, width=4 -> '+012'
    let f = Field::encode_signed_number(12, 4);
    assert_eq!(f.to_frame(), vec![b'+', 0x30, 0x31, 0x32]);

    // -12, width=4 -> '-012'
    let f = Field::encode_signed_number(-12, 4);
    assert_eq!(f.to_frame(), vec![b'-', 0x30, 0x31, 0x32]);

    // -123, width=4 -> '-123'
    let f = Field::encode_signed_number(-123, 4);
    assert_eq!(f.to_frame(), vec![b'-', 0x31, 0x32, 0x33]);
}

#[test]
fn test_decode_signed_number() {
    for value in [0_u8, 10_u8, 100_u8] {
        assert_eq!(
            Field::encode_signed_number(value as i64, 4).decode_signed_number(),
            Ok(value as i64)
        );
    }
    for value in [-10_i8, 0_i8, 10_i8] {
        assert_eq!(
            Field::encode_signed_number(value as i64, 4).decode_signed_number(),
            Ok(value as i64)
        );
    }
    for value in [0_u16, 10_u16, 1_000_u16] {
        assert_eq!(
            Field::encode_signed_number(value as i64, 5).decode_signed_number(),
            Ok(value as i64)
        );
    }
    for value in [-1_000_i16, -10_i16, 0_i16, 10_i16, 1_000_i16] {
        assert_eq!(
            Field::encode_signed_number(value as i64, 5).decode_signed_number_i16(),
            Ok(value)
        );
    }
    for value in [0_u32, 10_u32, 1000_u32, 10_000_u32, 100_000_u32] {
        assert_eq!(
            Field::encode_signed_number(value as i64, 10).decode_signed_number(),
            Ok(value as i64)
        );
    }
    for value in [
        -100_000_i32,
        -10_000_i32,
        -1000_i32,
        -10_i32,
        0_i32,
        10_i32,
        1000_i32,
        10_000_i32,
        100_000_i32,
    ] {
        assert_eq!(
            Field::encode_signed_number(value as i64, 10).decode_signed_number(),
            Ok(value as i64)
        );
    }
}

#[test]
fn test_error_decode_signed_number() {
    // Not only hexadecimal digits at the start
    assert!(Field::new(&[b'X', b'1', b'2']).decode_hexa_u16().is_err());

    // Not only digits after the sign
    assert!(Field::new(&[b'-', b'1', b'F', b'2']).decode_hexa_u16().is_err());

    // Not convertible (a sign for a u16)
    assert!(Field::new(&[b'-', b'1', b'2']).decode_hexa_u16().is_err());

    // Too large for a u16
    assert!(Field::new(&[b'+', b'9', b'9', b'9', b'9', b'9'])
        .decode_hexa_u16()
        .is_err());
}

#[test]
fn test_encode_str() {
    // "ABC", width 2 -> 'AB'
    let f = Field::encode_str("ABC", 2);
    assert_eq!(f.to_frame(), vec![0x41, 0x42]);

    // "ABC", width 3 -> 'ABC'
    let f = Field::encode_str("ABC", 3);
    assert_eq!(f.to_frame(), vec![0x41, 0x42, 0x43]);

    // "ABC", width 4 -> 'ABC '
    let f = Field::encode_str("ABC", 4);
    assert_eq!(f.to_frame(), vec![0x41, 0x42, 0x43, 0x20]);

    // "ABC", width 5 -> 'ABC  '
    let f = Field::encode_str("ABC", 5);
    assert_eq!(f.to_frame(), vec![0x41, 0x42, 0x43, 0x20, 0x20]);
}

#[test]
fn test_encode_str_0() {
    // "ABC", width 0 -> ''
    let f = Field::encode_str("ABC", 0);
    assert_eq!(f.to_frame(), vec![]);

    // "", width 3 -> '   '
    let f = Field::encode_str("", 3);
    assert_eq!(f.to_frame(), vec![0x20, 0x20, 0x20]);
}

#[test]
fn test_decode_str() {
    for value in ["HELLO", "123  ", " TOTO"] {
        assert_eq!(Field::encode_str(value, 5).decode_str().unwrap(), value);
    }
}

#[test]
fn test_error_decode_str() {
    // Not a text the protocol can carry
    assert!(Field::new(&[0xFF]).decode_str().is_err());
}

#[test]
fn test_encode_char() {
    let f = Field::encode_char('A');
    assert_eq!(f.to_frame(), vec![0x41]);
}

#[test]
fn test_decode_char() {
    for value in [' ', 'A', '?'] {
        assert_eq!(Field::encode_char(value).decode_char(), Ok(value));
    }
}

#[test]
fn test_error_decode_char() {
    // More than one character
    assert!(Field::new(&[b'1', b'2']).decode_char().is_err());

    // Not ASCII
    assert!(Field::new(&[0xFF]).decode_char().is_err());
}

#[test]
fn test_encode_hexa() {
    // 0x1A, width=2 -> '1A'
    let f = Field::encode_hexa(0x1A, 2);
    assert_eq!(f.to_frame(), vec![0x31, 0x41]);

    // 0x1A, width=3 -> '01A'
    let f = Field::encode_hexa(0x1A, 3);
    assert_eq!(f.to_frame(), vec![0x30, 0x31, 0x41]);

    // 0x1A, width=4 -> '001A'
    let f = Field::encode_hexa(0x1A, 4);
    assert_eq!(f.to_frame(), vec![0x30, 0x30, 0x31, 0x41]);

    // 0xABCD, width=4 -> 'ABCD'
    let f = Field::encode_hexa(0xABCD, 4);
    assert_eq!(f.to_frame(), vec![0x41, 0x42, 0x43, 0x44]);
}

#[test]
fn test_decode_hexa() {
    for value in [0x00_u8, 0xAB_u8, 0x9A_u8] {
        assert_eq!(Field::encode_hexa(value as u64, 2).decode_hexa_u8(), Ok(value));
    }
    for value in [0x00_i8, 0x12_i8, 0x23_i8] {
        assert_eq!(
            Field::encode_hexa(value as u64, 3).decode_hexa(),
            Ok(value as u64)
        );
    }
    for value in [0x1234_u16, 0xABCD_u16] {
        assert_eq!(
            Field::encode_hexa(value as u64, 4).decode_hexa_u16(),
            Ok(value)
        );
    }
    for value in [0x123_i16, 0x9AB_i16] {
        assert_eq!(
            Field::encode_hexa(value as u64, 4).decode_hexa(),
            Ok(value as u64)
        );
    }
    for value in [0x0_u32, 0x1234_ABCD_u32] {
        assert_eq!(
            Field::encode_hexa(value as u64, 8).decode_hexa(),
            Ok(value as u64)
        );
    }
    for value in [0x4567_i64, 0xB_A987_i64] {
        assert_eq!(
            Field::encode_hexa(value as u64, 10).decode_hexa(),
            Ok(value as u64)
        );
    }
}

#[test]
fn test_error_decode_hexa() {
    // Not only digits 0-9 / A-F / a-f
    assert!(Field::new(&[b'1', b'G', b'2']).decode_hexa_u16().is_err());

    // Too large for a u16
    assert!(Field::new(&[b'F', b'F', b'F', b'F', b'F'])
        .decode_hexa_u16()
        .is_err());
}

#[test]
fn test_decode_str_utf8() {
    // The decoder accepts any valid UTF-8 text, not only ASCII: the two-byte
    // sequence of an accented letter decodes to that letter
    assert_eq!(Field::new(&[0xC3, 0xA9]).decode_str().unwrap(), "é");
    assert_eq!(
        Field::new(&[b'D', 0xC3, 0xA9, b'p', b'.']).decode_str().unwrap(),
        "Dép."
    );
}

#[test]
fn test_error_decode_signed_number_empty() {
    // An empty signed field is a conversion error, not a value
    assert!(Field::new(&[]).decode_signed_number().is_err());
    assert!(Field::new(&[]).decode_signed_number_i16().is_err());
}
