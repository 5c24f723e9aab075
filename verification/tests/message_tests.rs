//! Full vacations of every catalog message over the serial test double:
//! request bytes checked, scripted response decoded, context verified.

use st2150::context::{Context, IdInfo};
use st2150::protocol;
use st2150::serial_com::{CommonSerialComTrait, FakeSerialCom};
use st2150::st2150::{ProtocolError, ST2150};

#[test]
fn test_message00() {
    // The FAKE serial port checks what travels...
    let mut fake_port = FakeSerialCom::new();

    // Protocol context
    let mut context = Context::default();

    // Expected request frame
    fake_port.should_write(&[
        protocol::STX,
        b'0', // message number
        b'0',
        protocol::SEPARATOR,
        b'F', // checksum
        b'E',
        protocol::ETX,
    ]);

    // Scripted response
    fake_port.will_read(&[
        protocol::STX,
        b'0', // message number
        b'0',
        protocol::SEPARATOR,
        b'0', // not measuring
        protocol::SEPARATOR,
        0x20, // no fault
        protocol::SEPARATOR,
        b'0', // no intermediate stop
        protocol::SEPARATOR,
        b'0', // no low-flow forcing
        protocol::SEPARATOR,
        b'0', // autonomous mode
        protocol::SEPARATOR,
        b'2', // checksum
        b'0',
        protocol::ETX,
    ]);

    let mut st = ST2150::new(fake_port);

    // The message can be requested
    assert!(ST2150::<FakeSerialCom>::message_availability(&context, 0).is_ok());

    // One full vacation over the FAKE port
    assert_eq!(st.do_message_vacation(&mut context, 0), Ok(()));
    assert!(!st.port.unexpected_write());

    // What the context now holds
    assert_eq!(context.get_option_info_bool(IdInfo::EnMesurage), Some(false));
    assert_eq!(context.get_option_info_u8(IdInfo::CodeDefaut), Some(0));
    assert_eq!(
        context.get_option_info_bool(IdInfo::ArretIntermediaire),
        Some(false)
    );
    assert_eq!(
        context.get_option_info_bool(IdInfo::ForcagePetitDebit),
        Some(false)
    );
    assert_eq!(context.get_option_info_bool(IdInfo::ModeConnecte), Some(false));
}

#[test]
fn test_message10() {
    let mut fake_port = FakeSerialCom::new();

    fake_port.should_write(&[
        protocol::STX,
        b'1', // message number
        b'0',
        protocol::SEPARATOR,
        b'F', // checksum
        b'F',
        protocol::ETX,
    ]);

    fake_port.will_read(&[
        protocol::STX,
        b'1', // message number
        b'0',
        protocol::SEPARATOR,
        b'1', // totalizer
        b'2',
        b'3',
        b'4',
        b'5',
        b'6',
        b'7',
        b'8',
        protocol::SEPARATOR,
        b'1', // flow rate, 1234 for 123.4
        b'2',
        b'3',
        b'4',
        protocol::SEPARATOR,
        b'1', // quantity
        b'2',
        b'3',
        b'4',
        b'5',
        protocol::SEPARATOR,
        b'+', // temperature, +123 for 12.3 degrees
        b'1',
        b'2',
        b'3',
        protocol::SEPARATOR,
        b'1', // preset
        b'2',
        b'3',
        b'4',
        b'5',
        protocol::SEPARATOR,
        b'1', // checksum
        b'6',
        protocol::ETX,
    ]);

    let mut st = ST2150::new(fake_port);
    let mut context = Context::default();

    assert!(ST2150::<FakeSerialCom>::message_availability(&context, 10).is_ok());
    assert_eq!(st.do_message_vacation(&mut context, 10), Ok(()));
    assert!(!st.port.unexpected_write());

    assert_eq!(
        context.get_option_info_u32(IdInfo::Totalisateur),
        Some(12_345_678)
    );
    // 123.4 units, stored in tenths
    assert_eq!(context.get_option_info_tenths(IdInfo::DebitInstant), Some(1234));
    assert_eq!(
        context.get_option_info_u32(IdInfo::QuantitePrincipale),
        Some(12345)
    );
    // 12.3 degrees, stored in tenths
    assert_eq!(
        context.get_option_info_tenths(IdInfo::TemperatureInstant),
        Some(123)
    );
    assert_eq!(
        context.get_option_info_u32(IdInfo::Predetermination),
        Some(12345)
    );
}

#[test]
fn test_message11() {
    let mut fake_port = FakeSerialCom::new();
    let mut context = Context::default();

    fake_port.should_write(&[
        protocol::STX,
        b'1', // message number
        b'1',
        protocol::SEPARATOR,
        70, // checksum
        69,
        protocol::ETX,
    ]);

    fake_port.will_read(&[
        protocol::STX,
        b'1', // message number
        b'1',
        protocol::SEPARATOR,
        b'9', // compartment count
        protocol::SEPARATOR,
        b'1', // product code, compartment #1
        protocol::SEPARATOR,
        b'0', b'1', b'0', b'0', b'0', // quantity, compartment #1
        protocol::SEPARATOR,
        b'2', // product code, compartment #2
        protocol::SEPARATOR,
        b'0', b'2', b'0', b'0', b'0', // quantity, compartment #2
        protocol::SEPARATOR,
        b'3', // product code, compartment #3
        protocol::SEPARATOR,
        b'0', b'3', b'0', b'0', b'0', // quantity, compartment #3
        protocol::SEPARATOR,
        b'4', // product code, compartment #4
        protocol::SEPARATOR,
        b'0', b'4', b'0', b'0', b'0', // quantity, compartment #4
        protocol::SEPARATOR,
        b'5', // product code, compartment #5
        protocol::SEPARATOR,
        b'0', b'5', b'0', b'0', b'0', // quantity, compartment #5
        protocol::SEPARATOR,
        b'6', // product code, compartment #6
        protocol::SEPARATOR,
        b'0', b'6', b'0', b'0', b'0', // quantity, compartment #6
        protocol::SEPARATOR,
        b'7', // product code, compartment #7
        protocol::SEPARATOR,
        b'0', b'7', b'0', b'0', b'0', // quantity, compartment #7
        protocol::SEPARATOR,
        b'8', // product code, compartment #8
        protocol::SEPARATOR,
        b'0', b'8', b'0', b'0', b'0', // quantity, compartment #8
        protocol::SEPARATOR,
        b'9', // product code, compartment #9
        protocol::SEPARATOR,
        b'0', b'9', b'0', b'0', b'0', // quantity, compartment #9
        protocol::SEPARATOR,
        b'T', // trailer present
        protocol::SEPARATOR,
        b'1', // piping product codes
        b'2',
        b'3',
        b'4',
        protocol::SEPARATOR,
        b'6', // checksum
        b'9',
        protocol::ETX,
    ]);

    let mut st = ST2150::new(fake_port);

    assert!(ST2150::<FakeSerialCom>::message_availability(&context, 11).is_ok());
    assert_eq!(st.do_message_vacation(&mut context, 11), Ok(()));
    assert!(!st.port.unexpected_write());

    assert_eq!(context.get_option_info_u8(IdInfo::NombreCompartiments), Some(9));
    for compart_num in 1..=9 {
        assert_eq!(
            context.get_option_info_u8(IdInfo::CodeProduitCompartiment(compart_num)),
            Some(u8::try_from(compart_num).unwrap())
        );
        assert_eq!(
            context.get_option_info_u32(IdInfo::QuantiteCompartiment(compart_num)),
            Some(u32::try_from(compart_num).unwrap() * 1000_u32)
        );
    }
    assert_eq!(context.get_option_info_bool(IdInfo::PresenceRemorque), Some(true));

    assert_eq!(context.get_option_info_u8(IdInfo::CodeProduitCollecteur), Some(1));
    assert_eq!(
        context.get_option_info_u8(IdInfo::CodeProduitPartieCommune),
        Some(2)
    );
    assert_eq!(context.get_option_info_u8(IdInfo::CodeProduitFlexible1), Some(3));
    assert_eq!(context.get_option_info_u8(IdInfo::CodeProduitFlexible2), Some(4));
}

#[test]
fn test_message20() {
    let mut fake_port = FakeSerialCom::new();
    let mut context = Context::default();

    // Request values
    context.set_info_u32(IdInfo::Predetermination, 12345);
    context.set_info_u8(IdInfo::CodeProduit, 1);

    fake_port.should_write(&[
        protocol::STX,
        b'2', // message number
        b'0',
        protocol::SEPARATOR,
        b'1', // preset
        b'2',
        b'3',
        b'4',
        b'5',
        protocol::SEPARATOR,
        b'1', // product code
        protocol::SEPARATOR,
        70, // checksum
        67,
        protocol::ETX,
    ]);

    fake_port.will_read(&[
        protocol::STX,
        b'2', // message number
        b'0',
        protocol::SEPARATOR,
        protocol::ACK, // ACK
        protocol::SEPARATOR,
        b'0', // checksum
        b'4',
        protocol::ETX,
    ]);

    let mut st = ST2150::new(fake_port);

    assert!(ST2150::<FakeSerialCom>::message_availability(&context, 20).is_ok());
    assert_eq!(st.do_message_vacation(&mut context, 20), Ok(()));
    assert!(!st.port.unexpected_write());

    assert_eq!(context.get_option_info_bool(IdInfo::Nack), Some(false));
    assert_eq!(context.get_option_info_bool(IdInfo::Ack), Some(true));
}

#[test]
fn test_message21_ok() {
    let mut fake_port = FakeSerialCom::new();
    let mut context = Context::default();

    fake_port.should_write(&[
        protocol::STX,
        b'2', // message number
        b'1',
        protocol::SEPARATOR,
        70, // checksum
        68,
        protocol::ETX,
    ]);

    fake_port.will_read(&[
        protocol::STX,
        b'2', // message number
        b'1',
        protocol::SEPARATOR,
        b'1', // measured quantity
        b'2',
        b'3',
        b'4',
        b'5',
        protocol::SEPARATOR,
        b'+', // temperature, +123 for 12.3 degrees
        b'1',
        b'2',
        b'3',
        protocol::SEPARATOR,
        b'1', // secondary quantity
        b'2',
        b'3',
        b'4',
        b'5',
        protocol::SEPARATOR,
        b'1', // totalizer
        b'2',
        b'3',
        b'4',
        b'5',
        b'6',
        b'7',
        b'8',
        protocol::SEPARATOR,
        b'1', // index without reset
        b'2',
        b'3',
        protocol::SEPARATOR,
        b'1', // daily index
        b'2',
        b'3',
        protocol::SEPARATOR,
        b'1', // day number
        b'2',
        b'3',
        protocol::SEPARATOR,
        b'1', // product code
        protocol::SEPARATOR,
        b'1', // start time
        b'2',
        b'3',
        b'4',
        protocol::SEPARATOR,
        b'1', // end time
        b'2',
        b'3',
        b'4',
        protocol::SEPARATOR,
        b'E', // checksum
        b'F',
        protocol::ETX,
    ]);

    let mut st = ST2150::new(fake_port);

    assert!(ST2150::<FakeSerialCom>::message_availability(&context, 21).is_ok());
    assert_eq!(st.do_message_vacation(&mut context, 21), Ok(()));
    assert!(!st.port.unexpected_write());

    assert_eq!(
        context.get_option_info_u32(IdInfo::QuantitePrincipale),
        Some(12_345)
    );
    // 12.3 degrees, stored in tenths
    assert_eq!(
        context.get_option_info_tenths(IdInfo::TemperatureMoyen),
        Some(123)
    );
    assert_eq!(
        context.get_option_info_u32(IdInfo::QuantiteSecondaire),
        Some(12_345)
    );
    assert_eq!(
        context.get_option_info_u32(IdInfo::Totalisateur),
        Some(12_345_678)
    );
    assert_eq!(context.get_option_info_u16(IdInfo::IndexSansRaz), Some(123));
    assert_eq!(context.get_option_info_u16(IdInfo::IndexJournalier), Some(123));
    assert_eq!(context.get_option_info_u16(IdInfo::Quantieme), Some(123));
    assert_eq!(context.get_option_info_u8(IdInfo::CodeProduit), Some(1));
    assert_eq!(context.get_option_info_u16(IdInfo::HeureHHMMDebut), Some(12_34));
    assert_eq!(context.get_option_info_u16(IdInfo::HeureHHMMFin), Some(12_34));
}

#[test]
fn test_message21_nack() {
    let mut context = Context::default();
    let mut fake_port = FakeSerialCom::new();

    fake_port.should_write(&[
        protocol::STX,
        b'2', // message number
        b'1',
        protocol::SEPARATOR,
        70, // checksum
        68,
        protocol::ETX,
    ]);

    // A bare NACK frame: decoded as a NACK even though the full shape
    // also exists for this message
    fake_port.will_read(&[
        protocol::STX,
        b'2', // message number
        b'1',
        protocol::SEPARATOR,
        protocol::NACK, // NACK
        protocol::SEPARATOR,
        b'1', // checksum
        b'6',
        protocol::ETX,
    ]);

    let mut st = ST2150::new(fake_port);

    assert!(ST2150::<FakeSerialCom>::message_availability(&context, 21).is_ok());
    assert_eq!(st.do_message_vacation(&mut context, 21), Ok(()));
    assert!(!st.port.unexpected_write());

    assert_eq!(context.get_option_info_bool(IdInfo::Nack), Some(true));
}

#[test]
fn test_message22() {
    let mut fake_port = FakeSerialCom::new();
    let mut context = Context::default();

    context.set_info_string(IdInfo::IdentificationTag, "ABCDE");

    fake_port.should_write(&[
        protocol::STX,
        b'2', // message number
        b'2',
        protocol::SEPARATOR,
        b'0', // TAG length
        b'0',
        b'5',
        protocol::SEPARATOR,
        b'A',
        b'B',
        b'C',
        b'D',
        b'E',
        protocol::SEPARATOR,
        56, // checksum
        65,
        protocol::ETX,
    ]);

    fake_port.will_read(&[
        protocol::STX,
        b'2', // message number
        b'2',
        protocol::SEPARATOR,
        protocol::ACK, // ACK
        protocol::SEPARATOR,
        b'0', // checksum
        b'6',
        protocol::ETX,
    ]);

    let mut st = ST2150::new(fake_port);

    assert!(ST2150::<FakeSerialCom>::message_availability(&context, 22).is_ok());
    assert_eq!(st.do_message_vacation(&mut context, 22), Ok(()));
    assert!(!st.port.unexpected_write());

    assert_eq!(context.get_option_info_bool(IdInfo::Nack), Some(false));
    assert_eq!(context.get_option_info_bool(IdInfo::Ack), Some(true));
}

#[test]
fn test_message30() {
    let mut fake_port = FakeSerialCom::new();
    let mut context = Context::default();

    fake_port.should_write(&[
        protocol::STX,
        b'3', // message number
        b'0',
        protocol::SEPARATOR,
        70, // checksum
        68,
        protocol::ETX,
    ]);

    fake_port.will_read(&[
        protocol::STX,
        b'3', // message number
        b'0',
        protocol::SEPARATOR,
        b'1', // meter reference (5 characters)
        b'2',
        b'3',
        b'4',
        b'5',
        b'A', // vehicle registration (10 characters)
        b'B',
        b'C',
        b'1',
        b'2',
        b'3',
        b'4',
        b'X',
        b'Y',
        b'Z',
        protocol::SEPARATOR,
        b'1', // software version (10 characters)
        b'.',
        b'0',
        b'0',
        b'0',
        b'1',
        b'0',
        b'1',
        b'0',
        b'1',
        protocol::SEPARATOR,
        b'9', // date & time AAMMJJHHMMSS
        b'9',
        b'1',
        b'2',
        b'3',
        b'1',
        b'2',
        b'3',
        b'5',
        b'9',
        b'5',
        b'9',
        protocol::SEPARATOR,
        b'0', // meter type 0:Vm, 1:Vb, 2:Mass
        protocol::SEPARATOR,
        b'F', // checksum
        b'D',
        protocol::ETX,
    ]);

    let mut st = ST2150::new(fake_port);

    assert!(ST2150::<FakeSerialCom>::message_availability(&context, 30).is_ok());
    assert_eq!(st.do_message_vacation(&mut context, 30), Ok(()));
    assert!(!st.port.unexpected_write());

    assert_eq!(
        context.get_option_info_string(IdInfo::ReferenceEtImmatriculation),
        Some("12345ABC1234XYZ".to_string())
    );
    assert_eq!(
        context.get_option_info_string(IdInfo::VersionLogiciel),
        Some("1.00010101".to_string())
    );
    assert_eq!(
        context.get_option_info_u64(IdInfo::DateAAMMJJHeureHHMMSS),
        Some(99_12_31_23_59_59_u64)
    );
    assert_eq!(context.get_option_info_u8(IdInfo::TypeCompteur), Some(0));
}

#[test]
fn test_message31() {
    let mut fake_port = FakeSerialCom::new();
    let mut context = Context::default();

    context.set_info_u16(IdInfo::Quantieme, 123);

    fake_port.should_write(&[
        protocol::STX,
        b'3', // message number
        b'1',
        protocol::SEPARATOR,
        b'1', // day number
        b'2',
        b'3',
        protocol::SEPARATOR,
        51, // checksum
        50,
        protocol::ETX,
    ]);

    fake_port.will_read(&[
        protocol::STX,
        b'3', // message number
        b'1',
        protocol::SEPARATOR,
        b'0', // measurement count for the day
        b'1',
        b'2',
        protocol::SEPARATOR,
        b'3', // checksum
        b'1',
        protocol::ETX,
    ]);

    let mut st = ST2150::new(fake_port);

    assert!(ST2150::<FakeSerialCom>::message_availability(&context, 31).is_ok());
    assert_eq!(st.do_message_vacation(&mut context, 31), Ok(()));
    assert!(!st.port.unexpected_write());

    assert_eq!(
        context.get_option_info_u16(IdInfo::NbMesuragesQuantieme),
        Some(12)
    );
}

#[test]
fn test_message32() {
    let mut fake_port = FakeSerialCom::new();
    let mut context = Context::default();

    context.set_info_u16(IdInfo::Quantieme, 123);
    context.set_info_u16(IdInfo::IndexJournalier, 1);

    fake_port.should_write(&[
        protocol::STX,
        b'3', // message number
        b'2',
        protocol::SEPARATOR,
        b'1', // day number
        b'2',
        b'3',
        protocol::SEPARATOR,
        b'0', // order number
        b'0',
        b'1',
        protocol::SEPARATOR,
        70, // checksum
        69,
        protocol::ETX,
    ]);

    fake_port.will_read(&[
        protocol::STX,
        b'3', // message number
        b'2',
        protocol::SEPARATOR,
        b'A', // product label
        b'B',
        b'C',
        b'D',
        b'E',
        protocol::SEPARATOR,
        b'1', // delivered quantity
        b'2',
        b'3',
        b'4',
        b'5',
        protocol::SEPARATOR,
        b'+', // mean temperature, +123 for 12.3 degrees
        b'1',
        b'2',
        b'3',
        protocol::SEPARATOR,
        b'0', // split count
        b'0',
        b'1',
        protocol::SEPARATOR,
        b'1', // start time
        b'2',
        b'3',
        b'4',
        protocol::SEPARATOR,
        b'1', // end time
        b'2',
        b'3',
        b'4',
        protocol::SEPARATOR,
        b'A', // checksum
        b'5',
        protocol::ETX,
    ]);

    let mut st = ST2150::new(fake_port);

    assert!(ST2150::<FakeSerialCom>::message_availability(&context, 32).is_ok());
    assert_eq!(st.do_message_vacation(&mut context, 32), Ok(()));
    assert!(!st.port.unexpected_write());

    assert_eq!(
        context.get_option_info_string(IdInfo::LibelleProduit),
        Some("ABCDE".to_string())
    );
    assert_eq!(
        context.get_option_info_u32(IdInfo::QuantitePrincipale),
        Some(12_345)
    );
    assert_eq!(
        context.get_option_info_tenths(IdInfo::TemperatureMoyen),
        Some(123)
    );
    assert_eq!(context.get_option_info_u16(IdInfo::NbFractionnements), Some(1));
    assert_eq!(context.get_option_info_u16(IdInfo::HeureHHMMDebut), Some(12_34));
    assert_eq!(context.get_option_info_u16(IdInfo::HeureHHMMFin), Some(12_34));
}

#[test]
fn test_message33() {
    let mut fake_port = FakeSerialCom::new();
    let mut context = Context::default();

    fake_port.should_write(&[
        protocol::STX,
        b'3', // message number
        b'3',
        protocol::SEPARATOR,
        70, // checksum
        69,
        protocol::ETX,
    ]);

    fake_port.will_read(&[
        protocol::STX,
        b'3', // message number
        b'3',
        protocol::SEPARATOR,
        b'P', // product label #1
        b'R',
        b'O',
        b'D',
        b'1',
        protocol::SEPARATOR,
        b'P', // product label #2
        b'R',
        b'O',
        b'D',
        b'2',
        protocol::SEPARATOR,
        b'P', // product label #3
        b'R',
        b'O',
        b'D',
        b'3',
        protocol::SEPARATOR,
        b'P', // product label #4
        b'R',
        b'O',
        b'D',
        b'4',
        protocol::SEPARATOR,
        b'P', // product label #5
        b'R',
        b'O',
        b'D',
        b'5',
        protocol::SEPARATOR,
        b'P', // product label #6
        b'R',
        b'O',
        b'D',
        b'6',
        protocol::SEPARATOR,
        b'P', // product label #7
        b'R',
        b'O',
        b'D',
        b'7',
        protocol::SEPARATOR,
        b'P', // product label #8
        b'R',
        b'O',
        b'D',
        b'8',
        protocol::SEPARATOR,
        b'F', // checksum
        b'6',
        protocol::ETX,
    ]);

    let mut st = ST2150::new(fake_port);

    assert!(ST2150::<FakeSerialCom>::message_availability(&context, 33).is_ok());
    assert_eq!(st.do_message_vacation(&mut context, 33), Ok(()));
    assert!(!st.port.unexpected_write());

    for indice_produit in 1_usize..=8 {
        assert_eq!(
            context.get_option_info_string(IdInfo::LibelleTableProduits(indice_produit)),
            Some(format!("PROD{indice_produit}"))
        );
    }
}

#[test]
fn test_message34() {
    let mut fake_port = FakeSerialCom::new();
    let mut context = Context::default();

    context.set_info_u16(IdInfo::Quantieme, 123);
    context.set_info_u16(IdInfo::IndexJournalier, 1);
    context.set_info_u16(IdInfo::IndexFractionnement, 2);

    fake_port.should_write(&[
        protocol::STX,
        b'3', // message number
        b'4',
        protocol::SEPARATOR,
        b'1', // day number
        b'2',
        b'3',
        protocol::SEPARATOR,
        b'0', // order number in the day
        b'0',
        b'1',
        protocol::SEPARATOR,
        b'0', // split number for the measurement
        b'0',
        b'2',
        protocol::SEPARATOR,
        51, // checksum
        52,
        protocol::ETX,
    ]);

    fake_port.will_read(&[
        protocol::STX,
        b'3', // message number
        b'4',
        protocol::SEPARATOR,
        b'1', // delivered quantity
        b'2',
        b'3',
        b'4',
        b'5',
        protocol::SEPARATOR,
        b'D', // distribution type
        protocol::SEPARATOR,
        b'1', // start time
        b'2',
        b'3',
        b'4',
        protocol::SEPARATOR,
        b'1', // end time
        b'2',
        b'3',
        b'4',
        protocol::SEPARATOR,
        b'8', // checksum
        b'C',
        protocol::ETX,
    ]);

    let mut st = ST2150::new(fake_port);

    assert!(ST2150::<FakeSerialCom>::message_availability(&context, 34).is_ok());
    assert_eq!(st.do_message_vacation(&mut context, 34), Ok(()));
    assert!(!st.port.unexpected_write());

    assert_eq!(
        context.get_option_info_u32(IdInfo::QuantitePrincipale),
        Some(12_345)
    );
    assert_eq!(
        context.get_option_info_char(IdInfo::TypeDistribution),
        Some('D')
    );
    assert_eq!(context.get_option_info_u16(IdInfo::HeureHHMMDebut), Some(12_34));
    assert_eq!(context.get_option_info_u16(IdInfo::HeureHHMMFin), Some(12_34));
}

#[test]
fn test_message35() {
    let mut fake_port = FakeSerialCom::new();
    let mut context = Context::default();

    fake_port.should_write(&[
        protocol::STX,
        b'3', // message number
        b'5',
        protocol::SEPARATOR,
        70, // checksum
        56,
        protocol::ETX,
    ]);

    fake_port.will_read(&[
        protocol::STX,
        b'3', // message number
        b'5',
        protocol::SEPARATOR,
        b'P', b'R', b'O', b'D', b'U', b'I', b'T', b' ', b'0', b'1', // product label #1
        protocol::SEPARATOR,
        b'P', b'R', b'O', b'D', b'U', b'I', b'T', b' ', b'0', b'2', // product label #2
        protocol::SEPARATOR,
        b'P', b'R', b'O', b'D', b'U', b'I', b'T', b' ', b'0', b'3', // product label #3
        protocol::SEPARATOR,
        b'P', b'R', b'O', b'D', b'U', b'I', b'T', b' ', b'0', b'4', // product label #4
        protocol::SEPARATOR,
        b'P', b'R', b'O', b'D', b'U', b'I', b'T', b' ', b'0', b'5', // product label #5
        protocol::SEPARATOR,
        b'P', b'R', b'O', b'D', b'U', b'I', b'T', b' ', b'0', b'6', // product label #6
        protocol::SEPARATOR,
        b'P', b'R', b'O', b'D', b'U', b'I', b'T', b' ', b'0', b'7', // product label #7
        protocol::SEPARATOR,
        b'P', b'R', b'O', b'D', b'U', b'I', b'T', b' ', b'0', b'8', // product label #8
        protocol::SEPARATOR,
        b'P', b'R', b'O', b'D', b'U', b'I', b'T', b' ', b'0', b'9', // product label #9
        protocol::SEPARATOR,
        b'P', b'R', b'O', b'D', b'U', b'I', b'T', b' ', b'1', b'0', // product label #10
        protocol::SEPARATOR,
        b'P', b'R', b'O', b'D', b'U', b'I', b'T', b' ', b'1', b'1', // product label #11
        protocol::SEPARATOR,
        b'P', b'R', b'O', b'D', b'U', b'I', b'T', b' ', b'1', b'2', // product label #12
        protocol::SEPARATOR,
        b'P', b'R', b'O', b'D', b'U', b'I', b'T', b' ', b'1', b'3', // product label #13
        protocol::SEPARATOR,
        b'P', b'R', b'O', b'D', b'U', b'I', b'T', b' ', b'1', b'4', // product label #14
        protocol::SEPARATOR,
        b'P', b'R', b'O', b'D', b'U', b'I', b'T', b' ', b'1', b'5', // product label #15
        protocol::SEPARATOR,
        b'P', b'R', b'O', b'D', b'U', b'I', b'T', b' ', b'1', b'6', // product label #16
        protocol::SEPARATOR,
        b'F', // checksum
        b'F',
        protocol::ETX,
    ]);

    let mut st = ST2150::new(fake_port);

    assert!(ST2150::<FakeSerialCom>::message_availability(&context, 35).is_ok());
    assert_eq!(st.do_message_vacation(&mut context, 35), Ok(()));
    assert!(!st.port.unexpected_write());

    for indice_produit in 1_usize..=16 {
        assert_eq!(
            context.get_option_info_string(IdInfo::LibelleTableProduits(indice_produit)),
            Some(format!("PRODUIT {indice_produit:02}"))
        );
    }
}

#[test]
fn test_message36() {
    let mut fake_port = FakeSerialCom::new();
    let mut context = Context::default();

    context.set_info_u32(IdInfo::DateAAMMJJ, 12_03_04);
    context.set_info_u16(IdInfo::IndexJournalier, 1);

    fake_port.should_write(&[
        protocol::STX,
        b'3', // message number
        b'6',
        protocol::SEPARATOR,
        b'1', // date AA MM JJ
        b'2',
        b'0',
        b'3',
        b'0',
        b'4',
        protocol::SEPARATOR,
        b'0', // order number in the day
        b'0',
        b'1',
        protocol::SEPARATOR,
        67, // checksum
        69,
        protocol::ETX,
    ]);

    fake_port.will_read(&[
        protocol::STX,
        b'3', // message number
        b'6',
        protocol::SEPARATOR,
        b'0', // event count for the day
        b'1',
        b'2',
        protocol::SEPARATOR,
        b'1', // time of the event (HHMMSS)
        b'2',
        b'3',
        b'4',
        b'5',
        b'6',
        protocol::SEPARATOR,
        b'A', b'A', b'B', b'B', b'C', b'C', b'D', b'D', b'E', b'E', b'F', b'F', // technical data (12 characters)
        protocol::SEPARATOR,
        b'0', b'1', b'2', b'3', b'4', b'5', b'6', b'7', b'8', b'9', // event label (40 characters)
        b'0', b'1', b'2', b'3', b'4', b'5', b'6', b'7', b'8', b'9',
        b'0', b'1', b'2', b'3', b'4', b'5', b'6', b'7', b'8', b'9',
        b'0', b'1', b'2', b'3', b'4', b'5', b'6', b'7', b'8', b'9',
        protocol::SEPARATOR,
        b'C', // checksum
        b'F',
        protocol::ETX,
    ]);

    let mut st = ST2150::new(fake_port);

    assert!(ST2150::<FakeSerialCom>::message_availability(&context, 36).is_ok());
    assert_eq!(st.do_message_vacation(&mut context, 36), Ok(()));
    assert!(!st.port.unexpected_write());

    assert_eq!(context.get_option_info_u16(IdInfo::NbJEvents), Some(12));
    assert_eq!(context.get_option_info_u32(IdInfo::HeureHHMMSS), Some(12_34_56));
    assert_eq!(
        context.get_option_info_string(IdInfo::DataJEvent),
        Some("AABBCCDDEEFF".to_string())
    );
    assert_eq!(
        context.get_option_info_string(IdInfo::LibelleJEvent),
        Some("0123456789012345678901234567890123456789".to_string())
    );
}

#[test]
fn test_message37() {
    let mut fake_port = FakeSerialCom::new();
    let mut context = Context::default();

    // Product code i and quantity 1000 * i into compartment #i
    for num_compart in 1_u8..=9 {
        context.set_info_u8(
            IdInfo::CodeProduitCompartiment(num_compart as usize),
            num_compart,
        );
        context.set_info_u32(
            IdInfo::QuantiteCompartiment(num_compart as usize),
            1000_u32 * u32::from(num_compart),
        );
    }

    fake_port.should_write(&[
        protocol::STX,
        b'3', // message number
        b'7',
        protocol::SEPARATOR,
        b'1', // product code, compartment #1
        protocol::SEPARATOR,
        b'0', b'1', b'0', b'0', b'0', // quantity, compartment #1
        protocol::SEPARATOR,
        b'2', // product code, compartment #2
        protocol::SEPARATOR,
        b'0', b'2', b'0', b'0', b'0', // quantity, compartment #2
        protocol::SEPARATOR,
        b'3', // product code, compartment #3
        protocol::SEPARATOR,
        b'0', b'3', b'0', b'0', b'0', // quantity, compartment #3
        protocol::SEPARATOR,
        b'4', // product code, compartment #4
        protocol::SEPARATOR,
        b'0', b'4', b'0', b'0', b'0', // quantity, compartment #4
        protocol::SEPARATOR,
        b'5', // product code, compartment #5
        protocol::SEPARATOR,
        b'0', b'5', b'0', b'0', b'0', // quantity, compartment #5
        protocol::SEPARATOR,
        b'6', // product code, compartment #6
        protocol::SEPARATOR,
        b'0', b'6', b'0', b'0', b'0', // quantity, compartment #6
        protocol::SEPARATOR,
        b'7', // product code, compartment #7
        protocol::SEPARATOR,
        b'0', b'7', b'0', b'0', b'0', // quantity, compartment #7
        protocol::SEPARATOR,
        b'8', // product code, compartment #8
        protocol::SEPARATOR,
        b'0', b'8', b'0', b'0', b'0', // quantity, compartment #8
        protocol::SEPARATOR,
        b'9', // product code, compartment #9
        protocol::SEPARATOR,
        b'0', b'9', b'0', b'0', b'0', // quantity, compartment #9
        protocol::SEPARATOR,
        70, // checksum
        65,
        protocol::ETX,
    ]);

    fake_port.will_read(&[
        protocol::STX,
        b'3', // message number
        b'7',
        protocol::SEPARATOR,
        protocol::ACK, // ACK
        protocol::SEPARATOR,
        b'0', // checksum
        b'2',
        protocol::ETX,
    ]);

    let mut st = ST2150::new(fake_port);

    assert!(ST2150::<FakeSerialCom>::message_availability(&context, 37).is_ok());
    assert_eq!(st.do_message_vacation(&mut context, 37), Ok(()));
    assert!(!st.port.unexpected_write());

    assert_eq!(context.get_option_info_bool(IdInfo::Nack), Some(false));
    assert_eq!(context.get_option_info_bool(IdInfo::Ack), Some(true));
}

#[test]
fn test_message40() {
    let mut fake_port = FakeSerialCom::new();
    let mut context = Context::default();

    context.set_info_u16(IdInfo::HeureHHMM, 1234);

    fake_port.should_write(&[
        protocol::STX,
        b'4', // message number
        b'0',
        protocol::SEPARATOR,
        b'1', // time
        b'2',
        b'3',
        b'4',
        protocol::SEPARATOR,
        48, // checksum
        48,
        protocol::ETX,
    ]);

    fake_port.will_read(&[
        protocol::STX,
        b'4', // message number
        b'0',
        protocol::SEPARATOR,
        protocol::ACK, // ACK
        protocol::SEPARATOR,
        b'0', // checksum
        b'2',
        protocol::ETX,
    ]);

    let mut st = ST2150::new(fake_port);

    assert!(ST2150::<FakeSerialCom>::message_availability(&context, 40).is_ok());
    assert_eq!(st.do_message_vacation(&mut context, 40), Ok(()));
    assert!(!st.port.unexpected_write());

    assert_eq!(context.get_option_info_bool(IdInfo::Nack), Some(false));
    assert_eq!(context.get_option_info_bool(IdInfo::Ack), Some(true));
}

#[test]
fn test_message66() {
    let mut fake_port = FakeSerialCom::new();
    let mut context = Context::default();

    // Request values
    context.set_info_u32(IdInfo::Predetermination, 1000);
    context.set_info_u8(IdInfo::CodeProduit, 6);
    context.set_info_u8(IdInfo::CodeProduitFinal, 5);
    context.set_info_u8(IdInfo::NumeroCompartiment, 4);
    context.set_info_u8(IdInfo::NumeroCompartimentFinal, 3);
    context.set_info_u8(IdInfo::NumeroFlexible, 2);
    context.set_info_u8(IdInfo::NumeroFlexibleFinal, 1);
    context.set_info_bool(IdInfo::FinirFlexibleVide, true);

    fake_port.should_write(&[
        protocol::STX,
        b'6', // message number
        b'6',
        protocol::SEPARATOR,
        b'0', // limit
        b'1',
        b'0',
        b'0',
        b'0',
        protocol::SEPARATOR,
        b'6', // product code
        protocol::SEPARATOR,
        b'5', // final product code
        protocol::SEPARATOR,
        b'4', // compartment number
        protocol::SEPARATOR,
        b'3', // final compartment number
        protocol::SEPARATOR,
        b'2', // hose number
        protocol::SEPARATOR,
        b'1', // final hose number
        protocol::SEPARATOR,
        b'V', // finish empty
        protocol::SEPARATOR,
        57, // checksum
        69,
        protocol::ETX,
    ]);

    fake_port.will_read(&[
        protocol::STX,
        b'6', // message number
        b'6',
        protocol::SEPARATOR,
        protocol::ACK, // ACK
        protocol::SEPARATOR,
        b'0', // movement error code
        b'0',
        protocol::SEPARATOR,
        b'F', // checksum
        b'8',
        protocol::ETX,
    ]);

    let mut st = ST2150::new(fake_port);

    assert!(ST2150::<FakeSerialCom>::message_availability(&context, 66).is_ok());
    assert_eq!(st.do_message_vacation(&mut context, 66), Ok(()));
    assert!(!st.port.unexpected_write());

    assert_eq!(context.get_option_info_bool(IdInfo::Nack), Some(false));
    assert_eq!(context.get_option_info_bool(IdInfo::Ack), Some(true));
    assert_eq!(
        context.get_option_info_u8(IdInfo::CodeErreurMouvementProduit),
        Some(0)
    );
}

#[test]
fn test_message70() {
    let mut fake_port = FakeSerialCom::new();
    let mut context = Context::default();

    // Request values
    context.set_info_u32(IdInfo::Predetermination, 1000);
    context.set_info_u8(IdInfo::CodeProduit, 3);
    context.set_info_u8(IdInfo::NumeroCompartiment, 2);
    context.set_info_bool(IdInfo::FinirFlexibleVide, true);

    fake_port.should_write(&[
        protocol::STX,
        b'7', // message number
        b'0',
        protocol::SEPARATOR,
        b'0', // limit
        b'1',
        b'0',
        b'0',
        b'0',
        protocol::SEPARATOR,
        b'3', // product code
        protocol::SEPARATOR,
        b'2', // compartment number
        protocol::SEPARATOR,
        b'V', // finish empty
        protocol::SEPARATOR,
        57, // checksum
        70,
        protocol::ETX,
    ]);

    fake_port.will_read(&[
        protocol::STX,
        b'7', // message number
        b'0',
        protocol::SEPARATOR,
        protocol::ACK, // ACK
        protocol::SEPARATOR,
        b'0', // movement error code
        b'0',
        protocol::SEPARATOR,
        b'F', // checksum
        b'F',
        protocol::ETX,
    ]);

    let mut st = ST2150::new(fake_port);

    assert!(ST2150::<FakeSerialCom>::message_availability(&context, 70).is_ok());
    assert_eq!(st.do_message_vacation(&mut context, 70), Ok(()));
    assert!(!st.port.unexpected_write());

    assert_eq!(context.get_option_info_bool(IdInfo::Nack), Some(false));
    assert_eq!(context.get_option_info_bool(IdInfo::Ack), Some(true));
    assert_eq!(
        context.get_option_info_u8(IdInfo::CodeErreurMouvementProduit),
        Some(0)
    );
}

#[test]
fn test_availability() {
    // A context with the required identifiers unset fails availability;
    // setting them all succeeds.
    let mut context = Context::default();
    assert!(ST2150::<FakeSerialCom>::message_availability(&context, 20).is_err());

    context.set_info_u32(IdInfo::Predetermination, 12345);
    assert!(ST2150::<FakeSerialCom>::message_availability(&context, 20).is_err());

    context.set_info_u8(IdInfo::CodeProduit, 1);
    assert!(ST2150::<FakeSerialCom>::message_availability(&context, 20).is_ok());
}

#[test]
fn test_timeout_no_reply() {
    // The transport hands back nothing at all for the whole timeout window:
    // the vacation reports no reply and the context is untouched.
    let fake_port = FakeSerialCom::new();
    let mut context = Context::default();

    let mut st = ST2150::new(fake_port);
    assert_eq!(
        st.do_message_vacation(&mut context, 0),
        Err(ProtocolError::NoReply)
    );
    assert_eq!(context.get_option_info_bool(IdInfo::EnMesurage), None);
    assert_eq!(context.get_option_info_u8(IdInfo::CodeDefaut), None);
    assert!(!st.last_error.is_empty());
}

#[test]
fn test_message00_bad_field_value() {
    // A structurally valid frame whose first field is neither '0' nor '1':
    // the vacation fails on the field's value
    let mut fake_port = FakeSerialCom::new();
    let mut context = Context::default();

    fake_port.will_read(&[
        protocol::STX,
        b'0', // message number
        b'0',
        protocol::SEPARATOR,
        b'2', // neither '0' nor '1'
        protocol::SEPARATOR,
        0x20,
        protocol::SEPARATOR,
        b'0',
        protocol::SEPARATOR,
        b'0',
        protocol::SEPARATOR,
        b'0',
        protocol::SEPARATOR,
        b'2', // checksum
        b'2',
        protocol::ETX,
    ]);

    let mut st = ST2150::new(fake_port);
    let ret = st.do_message_vacation(&mut context, 0);
    assert!(matches!(ret, Err(ProtocolError::IllegalRepFieldValue(_, _, _))));
}

#[test]
fn test_message22_non_ascii_tag() {
    // The wire carries one byte per character: a tag outside ASCII cannot
    // be encoded
    let fake_port = FakeSerialCom::new();
    let mut context = Context::default();
    context.set_info_string(IdInfo::IdentificationTag, "étiquette");

    let mut st = ST2150::new(fake_port);
    let ret = st.do_message_vacation(&mut context, 22);
    assert!(matches!(ret, Err(ProtocolError::IllegalNumberEncoding(_))));
}
