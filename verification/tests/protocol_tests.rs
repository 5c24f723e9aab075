//! Checksum vectors, the request builder, the serial test double and the
//! response-waiting primitive.

use st2150::protocol;
use st2150::protocol::calcul_checksum;
use st2150::requete::Requete;
use st2150::serial_com::{CommonSerialComTrait, FakeSerialCom};

#[test]
fn test_checksum() {
    // Known vectors of the protocol specification
    assert_eq!(calcul_checksum(&[0x32, 0x32, 0xFE]), 0xFE);
    assert_eq!(calcul_checksum(&[0x32, 0x32, 0xFE, 0x06, 0xFE]), 0x06);
    assert_eq!(
        calcul_checksum(&[
            0x32, 0x31, 0xFE, 0x30, 0x31, 0x30, 0x30, 0x30, 0xFE, 0x31, 0xFE, 0x30, 0xFE, 0x31,
            0x32, 0x33, 0x34, 0x35, 0x36, 0x37, 0x38, 0xFE
        ]),
        0xC5
    );
}

#[test]
fn test_waiting_frame() {
    // The FAKE serial port simulates a reply...
    let mut fake_port = FakeSerialCom::new();

    fake_port.will_read(&[0x01, 0x02, 0x03]);

    let buffer = protocol::waiting_frame(&mut fake_port, 3);

    assert_eq!(buffer.len(), 3);
    assert_eq!(buffer[0..3], [0x01, 0x02, 0x03]);
}

#[test]
fn test_requete() {
    // Message 12...
    let mut req = Requete::new(12);

    // ... with one field ABCD
    let my_field = st2150::field::Field::encode_str("ABCD", 4);
    req.add_field(my_field);

    let trame = req.to_frame();

    // The checksum of the frame
    let checksum = calcul_checksum(&[
        0x31,
        0x32,
        protocol::SEPARATOR,
        0x41,
        0x42,
        0x43,
        0x44,
        protocol::SEPARATOR,
    ]);
    assert_eq!(checksum, 0x07);

    // So the frame must be
    assert_eq!(
        trame,
        vec![
            protocol::STX,
            0x31,
            0x32,
            protocol::SEPARATOR,
            0x41,
            0x42,
            0x43,
            0x44,
            protocol::SEPARATOR,
            0x30,
            0x37,
            protocol::ETX
        ]
    );
}

#[test]
fn test_fake_serial_port() {
    let mut fake = FakeSerialCom::default();

    // A FAKE port accepts writes (without effect when nothing is expected)
    fake.write(&[1, 2, 3]);

    // By default nothing is read
    let mut buffer: Vec<u8> = Vec::new();
    assert_eq!(fake.read(&mut buffer), 0);

    // But the next read can be scripted
    fake.will_read(&[1, 2, 3]);
    assert_eq!(fake.read(&mut buffer), 3);
    assert_eq!(buffer[..3], [1, 2, 3])
}

#[test]
fn test_fake_serial_port_will_read() {
    let mut fake = FakeSerialCom::default();

    // A FAKE port accepts writes (without effect when nothing is expected)
    fake.write(&[1, 2, 3]);

    // By default nothing is read
    let mut buffer: Vec<u8> = Vec::new();
    assert_eq!(fake.read(&mut buffer), 0);

    // But the next read can be scripted
    fake.will_read(&[1, 2, 3]);
    assert_eq!(fake.read(&mut buffer), 3);
    assert_eq!(buffer[..3], [1, 2, 3]);

    // Consumed exactly once
    let mut buffer: Vec<u8> = Vec::new();
    assert_eq!(fake.read(&mut buffer), 0);
}

#[test]
fn test_fake_serial_port_should_write() {
    let mut fake = FakeSerialCom::default();

    // A FAKE port accepts writes (without effect when nothing is expected)
    fake.write(&[1, 2, 3]);
    assert!(!fake.unexpected_write());

    // Record what the next write must carry
    fake.should_write(&[1, 2, 3]);

    // No mismatch when exactly that is written
    fake.write(&[1, 2, 3]);
    assert!(!fake.unexpected_write());

    // Consumed exactly once, so later writes are unchecked
    fake.write(&[2, 3, 4]);
    assert!(!fake.unexpected_write());
}

#[test]
fn test_fake_serial_port_mismatch() {
    let mut fake = FakeSerialCom::default();

    // Record what the next write must carry...
    fake.should_write(&[1, 2, 3]);

    // ... and write something else: the double remembers the mismatch
    fake.write(&[2, 3, 4]);
    assert!(fake.unexpected_write());
}
