//! Frame envelope: building, ACK/NACK predicates, parsing and its errors.

use st2150::field::Field;
use st2150::frame::Frame;
use st2150::protocol;
use st2150::st2150::ProtocolError;

#[test]
fn test_construction_message() {
    // Message 12...
    let mut req = Frame::new(12);

    // ... with one field ABCD
    req.add_field(Field::encode_str("ABCD", 4));

    let trame = req.to_frame();

    // The checksum of the frame
    let checksum = protocol::calcul_checksum(&[
        0x31,
        0x32,
        protocol::SEPARATOR,
        0x41,
        0x42,
        0x43,
        0x44,
        protocol::SEPARATOR,
    ]);
    assert_eq!(checksum, 0x07);

    // So the frame must be
    assert_eq!(
        trame,
        vec![
            protocol::STX,
            0x31,
            0x32,
            protocol::SEPARATOR,
            0x41,
            0x42,
            0x43,
            0x44,
            protocol::SEPARATOR,
            0x30,
            0x37,
            protocol::ETX
        ]
    );
}

#[test]
fn test_message_is_ack() {
    let mut req = Frame::new(12);
    req.add_field(Field::encode_binary(protocol::ACK));
    assert!(req.is_ack());
}

#[test]
fn test_message_is_nack() {
    let mut req = Frame::new(12);
    req.add_field(Field::encode_binary(protocol::NACK));
    req.add_field(Field::encode_str("ERREUR", 6));
    assert!(req.is_nack());
}

#[test]
fn test_try_from_buffer_is_ok() {
    // Build a frame, then parse its wire form back and compare

    // Frame num = 12 without a field
    let frame = Frame::new(12);
    let ret = Frame::try_from_buffer(&frame.to_frame(), 12, &[]);
    assert_eq!(ret.unwrap(), frame);

    // Frame num = 12 with one 5-character text field
    let mut frame = Frame::new(12);
    frame.add_field(Field::encode_str("VALUE", 5));
    let ret = Frame::try_from_buffer(&frame.to_frame(), 12, &[5]);
    assert_eq!(ret.unwrap(), frame);

    // Frame num = 12 with two 1-character text fields
    let mut frame = Frame::new(12);
    frame.add_field(Field::encode_str("0", 1));
    frame.add_field(Field::encode_str("1", 1));
    let ret = Frame::try_from_buffer(&frame.to_frame(), 12, &[1, 1]);
    assert_eq!(ret.unwrap(), frame);

    // Frame num = 12 with two fields of lengths [5, 10]
    let mut frame = Frame::new(12);
    frame.add_field(Field::encode_number(12345, 5));
    frame.add_field(Field::encode_str("VALUE", 10));
    let ret = Frame::try_from_buffer(&frame.to_frame(), 12, &[5, 10]);
    assert_eq!(ret.unwrap(), frame);

    // Frame num = 12 with three fields of lengths [10, 0, 3]
    let mut frame = Frame::new(12);
    frame.add_field(Field::encode_str("VALUE", 10));
    frame.add_field(Field::new(&[]));
    frame.add_field(Field::encode_number(123, 3));
    let ret = Frame::try_from_buffer(&frame.to_frame(), 12, &[10, 0, 3]);
    assert_eq!(ret.unwrap(), frame);
}

#[test]
fn test_try_from_buffer_is_err_part_1() {
    /* buffer / message number / field lengths / ProtocolError */
    let err_tests: Vec<(&[u8], u8, &[usize], ProtocolError)> = vec![
        // Too short a message (at least 7 bytes)
        (
            &[protocol::STX, 0x01, protocol::ETX],
            0,
            &[],
            ProtocolError::BadMessageLen(3, 7),
        ),
        // Message without a leading STX
        (
            &[0x01, 0, 0, 0, 0, 0, 0, protocol::ETX],
            0,
            &[],
            ProtocolError::MissingSTX,
        ),
        // Message without a trailing ETX
        (
            &[protocol::STX, 0, 0, 0, 0, 0, 0, 0x01],
            0,
            &[],
            ProtocolError::MissingETX,
        ),
        // Message with a wrong checksum
        (
            &[
                protocol::STX,
                b'0',
                b'0',
                protocol::SEPARATOR,
                0x00, /* checksum 00, FE expected */
                0x00,
                protocol::ETX,
            ],
            0,
            &[],
            ProtocolError::BadChecksum(0, 0xFE),
        ),
        // Error message 50
        (
            &[
                protocol::STX,
                b'5', /* error message 50 */
                b'0',
                protocol::SEPARATOR,
                b'E',
                b'R',
                b'R',
                b'E',
                b'U',
                b'R',
                protocol::SEPARATOR,
                b'0',
                b'2',
                protocol::ETX,
            ],
            12, /* ... while message 12 was expected */
            &[],
            ProtocolError::ErrorMessage50("ERREUR".to_string()),
        ),
        // Malformed error message 50
        (
            &[
                protocol::STX,
                b'5', /* error message 50 */
                b'0',
                protocol::SEPARATOR,
                // "ERREUR" missing here...
                protocol::SEPARATOR,
                b'0',
                b'5',
                protocol::ETX,
            ],
            12,
            &[],
            ProtocolError::ErrorMessage50("??? Malformed ???".to_string()),
        ),
    ];

    for (buffer, message_num, len_fields, expected) in err_tests {
        let res = Frame::try_from_buffer(buffer, message_num, len_fields);
        assert!(res.is_err());
        assert_eq!(expected, res.err().unwrap());
    }
}

#[test]
fn test_try_from_buffer_is_err_part_2() {
    /* buffer / message number / field lengths / ProtocolError */
    let err_tests: Vec<(&[u8], u8, &[usize], ProtocolError)> = vec![
        // Message with an unexpected length (per the expected field lengths, none here)
        (
            &[
                protocol::STX,
                b'0',
                b'0',
                protocol::SEPARATOR,
                b'0',
                protocol::SEPARATOR,
                b'3',
                b'0',
                protocol::ETX,
            ],
            0,
            &[],
            ProtocolError::BadMessageLen(9, 7),
        ),
        // Message with a wrong number (other than the expected one)
        (
            &[
                protocol::STX,
                b'0', /* message 00... */
                b'0',
                protocol::SEPARATOR,
                b'F',
                b'E',
                protocol::ETX,
            ],
            12, /* ... while message 12 was expected */
            &[],
            ProtocolError::BadMessageNumber(0, 12),
        ),
        // Message with a separator at the wrong place (at least two fields)
        (
            &[
                protocol::STX,
                b'0',
                b'0',
                protocol::SEPARATOR,
                b'1', /* field #1, one byte */
                protocol::SEPARATOR,
                b'2', /* field #2, two bytes */
                b'2',
                protocol::SEPARATOR,
                b'C',
                b'F',
                protocol::ETX,
            ],
            0,
            &[2, 1], /* field lengths #1/#2 swapped here */
            ProtocolError::SeparatorExpected(6),
        ),
    ];

    for (buffer, message_num, len_fields, expected) in err_tests {
        let res = Frame::try_from_buffer(buffer, message_num, len_fields);
        assert!(res.is_err());
        assert_eq!(expected, res.err().unwrap());
    }
}
