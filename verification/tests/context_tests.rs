//! Context store: typed get/set for every format, the textual projection,
//! the domain clamp and the cascading date/time updates.

use st2150::context::{Context, FormatInfo, IdInfo, NB_COMPARTIMENTS, NB_PRODUITS};

// Exercised with identifiers of every possible format; see test_get_set.
fn check_id_code(context: &mut Context, id_info: IdInfo) {
    let option_max = context.get_info_max(id_info);
    match context.get_info_format(id_info) {
        FormatInfo::Bool => {
            assert!(context.get_option_info_bool(id_info).is_none());
            for value in [true, false] {
                context.set_info_bool(id_info, value);
                assert_eq!(context.get_option_info_bool(id_info), Some(value));
            }
        }
        FormatInfo::Char => {
            assert!(context.get_option_info_char(id_info).is_none());
            for value in ['A', 'B', 'e', 'é'] {
                context.set_info_char(id_info, value);
                assert_eq!(context.get_option_info_char(id_info), Some(value));
            }
        }
        FormatInfo::U8 => {
            assert!(context.get_option_info_u8(id_info).is_none());
            for value in [0_u8, 10_u8, 100_u8] {
                if let Some(max_value) = option_max {
                    if value as u64 > max_value {
                        continue;
                    }
                }
                context.set_info_u8(id_info, value);
                assert_eq!(context.get_option_info_u8(id_info), Some(value));
            }
        }
        FormatInfo::U16 => {
            assert!(context.get_option_info_u16(id_info).is_none());
            for value in [0_u16, 1000_u16, 10_000_u16] {
                if let Some(max_value) = option_max {
                    if value as u64 > max_value {
                        continue;
                    }
                }
                context.set_info_u16(id_info, value);
                assert_eq!(context.get_option_info_u16(id_info), Some(value));
            }
        }
        FormatInfo::U32 => {
            assert!(context.get_option_info_u32(id_info).is_none());
            for value in [0_u32, 1000_u32, 100_000_u32] {
                if let Some(max_value) = option_max {
                    if value as u64 > max_value {
                        continue;
                    }
                }
                context.set_info_u32(id_info, value);
                assert_eq!(context.get_option_info_u32(id_info), Some(value));
            }
        }
        FormatInfo::U64 => {
            assert!(context.get_option_info_u64(id_info).is_none());
            for value in [0_u64, 100_000_u64, 100_000_000_u64, 100_000_000_000_000_u64] {
                if let Some(max_value) = option_max {
                    if value > max_value {
                        continue;
                    }
                }
                context.set_info_u64(id_info, value);
                assert_eq!(context.get_option_info_u64(id_info), Some(value));
            }
        }
        FormatInfo::Tenths => {
            assert!(context.get_option_info_tenths(id_info).is_none());
            for value in [0_i32, 10_000_i32, -10_000_i32, 1_000_000_i32] {
                context.set_info_tenths(id_info, value);
                assert_eq!(context.get_option_info_tenths(id_info), Some(value));
            }
        }
        FormatInfo::String(_width) => {
            assert!(context.get_option_info_string(id_info).is_none());
            for value in ["", "ABC"] {
                context.set_info_string(id_info, value);
                assert_eq!(context.get_option_info_string(id_info), Some(value.to_string()));
            }
        }
    }
}

#[test]
fn test_get_set() {
    let mut context = Context::default();

    check_id_code(&mut context, IdInfo::Ack);
    check_id_code(&mut context, IdInfo::Nack);
    check_id_code(&mut context, IdInfo::EnMesurage);
    check_id_code(&mut context, IdInfo::CodeDefaut);
    check_id_code(&mut context, IdInfo::ArretIntermediaire);
    check_id_code(&mut context, IdInfo::ForcagePetitDebit);
    check_id_code(&mut context, IdInfo::ModeConnecte);
    check_id_code(&mut context, IdInfo::Totalisateur);
    check_id_code(&mut context, IdInfo::DebitInstant);
    check_id_code(&mut context, IdInfo::QuantitePrincipale);
    check_id_code(&mut context, IdInfo::QuantiteSecondaire);
    check_id_code(&mut context, IdInfo::TemperatureInstant);
    check_id_code(&mut context, IdInfo::TemperatureMoyen);
    check_id_code(&mut context, IdInfo::Predetermination);
    check_id_code(&mut context, IdInfo::CodeProduit);
    check_id_code(&mut context, IdInfo::IndexSansRaz);
    check_id_code(&mut context, IdInfo::IndexJournalier);
    check_id_code(&mut context, IdInfo::Quantieme);
    check_id_code(&mut context, IdInfo::HeureHHMMDebut);
    check_id_code(&mut context, IdInfo::HeureHHMMFin);
    // Mind the cascading date/time updates:
    // test the date/time identifiers from the least to the most precise
    check_id_code(&mut context, IdInfo::HeureHHMM);
    check_id_code(&mut context, IdInfo::HeureHHMMSS);
    check_id_code(&mut context, IdInfo::DateAAMMJJ);
    check_id_code(&mut context, IdInfo::DateAAMMJJHeureHHMMSS);
    check_id_code(&mut context, IdInfo::IdentificationTag);
    check_id_code(&mut context, IdInfo::ReferenceEtImmatriculation);
    check_id_code(&mut context, IdInfo::VersionLogiciel);
    check_id_code(&mut context, IdInfo::TypeCompteur);
    check_id_code(&mut context, IdInfo::NbMesuragesQuantieme);
    check_id_code(&mut context, IdInfo::LibelleProduit);
    check_id_code(&mut context, IdInfo::NbFractionnements);
    for prod_num in 0..=NB_PRODUITS {
        check_id_code(&mut context, IdInfo::LibelleTableProduits(prod_num));
    }
    check_id_code(&mut context, IdInfo::IndexFractionnement);
    check_id_code(&mut context, IdInfo::TypeDistribution);
    check_id_code(&mut context, IdInfo::NbJEvents);
    check_id_code(&mut context, IdInfo::DataJEvent);
    check_id_code(&mut context, IdInfo::LibelleJEvent);
    for compart_num in 0..=NB_COMPARTIMENTS {
        check_id_code(&mut context, IdInfo::CodeProduitCompartiment(compart_num));
        check_id_code(&mut context, IdInfo::QuantiteCompartiment(compart_num));
    }
    check_id_code(&mut context, IdInfo::NombreCompartiments);
    check_id_code(&mut context, IdInfo::PresenceRemorque);
    check_id_code(&mut context, IdInfo::CodeProduitCollecteur);
    check_id_code(&mut context, IdInfo::CodeProduitPartieCommune);
    check_id_code(&mut context, IdInfo::CodeProduitFlexible1);
    check_id_code(&mut context, IdInfo::CodeProduitFlexible2);
    check_id_code(&mut context, IdInfo::CodeErreurMouvementProduit);
    check_id_code(&mut context, IdInfo::CodeProduitFinal);
    check_id_code(&mut context, IdInfo::NumeroCompartiment);
    check_id_code(&mut context, IdInfo::NumeroCompartimentFinal);
    check_id_code(&mut context, IdInfo::OrdreCompartiments);
    check_id_code(&mut context, IdInfo::NumeroFlexible);
    check_id_code(&mut context, IdInfo::NumeroFlexibleFinal);
    check_id_code(&mut context, IdInfo::FinirFlexibleVide);
}

#[test]
fn test_context_string_bool() {
    let mut context = Context::default();

    assert!(context.get_option_info_bool(IdInfo::Ack).is_none());
    assert_eq!(context.get_info_to_string(IdInfo::Ack, "None"), "None");

    context.set_info_bool(IdInfo::Ack, true);
    assert_eq!(context.get_option_info_bool(IdInfo::Ack), Some(true));
    assert_eq!(context.get_info_to_string(IdInfo::Ack, "None"), "Oui");

    context.set_info_from_string(IdInfo::Ack, "Non");
    assert_eq!(context.get_option_info_bool(IdInfo::Ack), Some(false));
    assert_eq!(context.get_info_to_string(IdInfo::Ack, "None"), "Non");

    context.set_info_from_string(IdInfo::Ack, "");
    assert_eq!(context.get_option_info_bool(IdInfo::Ack), None);
}

#[test]
fn test_context_string_char() {
    let mut context = Context::default();

    assert!(context.get_option_info_char(IdInfo::TypeDistribution).is_none());
    assert_eq!(
        context.get_info_to_string(IdInfo::TypeDistribution, "None"),
        "None"
    );

    context.set_info_from_string(IdInfo::TypeDistribution, "X");
    assert_eq!(
        context.get_option_info_char(IdInfo::TypeDistribution),
        Some('X')
    );
    assert_eq!(
        context.get_info_to_string(IdInfo::TypeDistribution, "None"),
        "X"
    );

    context.set_info_from_string(IdInfo::TypeDistribution, "");
    assert_eq!(context.get_option_info_char(IdInfo::TypeDistribution), None);
}

#[test]
fn test_context_string_u8() {
    let mut context = Context::default();

    assert!(context.get_option_info_u8(IdInfo::CodeProduit).is_none());
    assert_eq!(
        context.get_info_to_string(IdInfo::CodeProduit, "None"),
        "None"
    );

    context.set_info_from_string(IdInfo::CodeProduit, "3");
    assert_eq!(context.get_option_info_u8(IdInfo::CodeProduit), Some(3));
    assert_eq!(context.get_info_to_string(IdInfo::CodeProduit, "None"), "3");

    context.set_info_from_string(IdInfo::CodeProduit, "");
    assert_eq!(context.get_option_info_u8(IdInfo::CodeProduit), None);
}

#[test]
fn test_context_string_u16() {
    let mut context = Context::default();

    assert!(context.get_option_info_u16(IdInfo::HeureHHMM).is_none());
    assert_eq!(context.get_info_to_string(IdInfo::HeureHHMM, "None"), "None");

    context.set_info_from_string(IdInfo::HeureHHMM, "1234");
    assert_eq!(context.get_option_info_u16(IdInfo::HeureHHMM), Some(1234));
    assert_eq!(context.get_info_to_string(IdInfo::HeureHHMM, "None"), "1234");

    context.set_info_from_string(IdInfo::HeureHHMM, "");
    assert_eq!(context.get_option_info_u16(IdInfo::HeureHHMM), None);
}

#[test]
fn test_context_string_u32() {
    let mut context = Context::default();

    assert!(context.get_option_info_u32(IdInfo::QuantitePrincipale).is_none());
    assert_eq!(
        context.get_info_to_string(IdInfo::QuantitePrincipale, "None"),
        "None"
    );

    context.set_info_from_string(IdInfo::QuantitePrincipale, "12345");
    assert_eq!(
        context.get_option_info_u32(IdInfo::QuantitePrincipale),
        Some(12345)
    );
    assert_eq!(
        context.get_info_to_string(IdInfo::QuantitePrincipale, "None"),
        "12345"
    );

    context.set_info_from_string(IdInfo::QuantitePrincipale, "");
    assert_eq!(context.get_option_info_u32(IdInfo::QuantitePrincipale), None);
}

#[test]
fn test_context_string_u64() {
    let mut context = Context::default();

    assert!(context
        .get_option_info_u64(IdInfo::DateAAMMJJHeureHHMMSS)
        .is_none());
    assert_eq!(
        context.get_info_to_string(IdInfo::DateAAMMJJHeureHHMMSS, "None"),
        "None"
    );

    context.set_info_from_string(IdInfo::DateAAMMJJHeureHHMMSS, "991231235959");
    assert_eq!(
        context.get_option_info_u64(IdInfo::DateAAMMJJHeureHHMMSS),
        Some(99_12_31_23_59_59)
    );
    assert_eq!(
        context.get_info_to_string(IdInfo::DateAAMMJJHeureHHMMSS, "None"),
        "991231235959"
    );

    context.set_info_from_string(IdInfo::DateAAMMJJHeureHHMMSS, "");
    assert_eq!(context.get_option_info_u64(IdInfo::DateAAMMJJHeureHHMMSS), None);
}

#[test]
fn test_context_string_tenths() {
    let mut context = Context::default();

    assert!(context
        .get_option_info_tenths(IdInfo::TemperatureInstant)
        .is_none());
    assert_eq!(
        context.get_info_to_string(IdInfo::TemperatureInstant, "None"),
        "None"
    );

    // -12.3 degrees travels and is stored as -123 tenths
    context.set_info_from_string(IdInfo::TemperatureInstant, "-12.3");
    assert_eq!(
        context.get_option_info_tenths(IdInfo::TemperatureInstant),
        Some(-123)
    );
    assert_eq!(
        context.get_info_to_string(IdInfo::TemperatureInstant, "None"),
        "-12.3"
    );

    context.set_info_from_string(IdInfo::TemperatureInstant, "");
    assert_eq!(context.get_option_info_tenths(IdInfo::TemperatureInstant), None);
}

#[test]
fn test_context_string_string() {
    let mut context = Context::default();

    assert!(context.get_option_info_string(IdInfo::LibelleProduit).is_none());
    assert_eq!(
        context.get_info_to_string(IdInfo::LibelleProduit, "None"),
        "None"
    );

    context.set_info_from_string(IdInfo::LibelleProduit, "ABCDE");
    assert_eq!(
        context.get_option_info_string(IdInfo::LibelleProduit),
        Some("ABCDE".to_string())
    );
    assert_eq!(
        context.get_info_to_string(IdInfo::LibelleProduit, "None"),
        "ABCDE"
    );

    context.set_info_from_string(IdInfo::LibelleProduit, "");
    assert_eq!(context.get_option_info_string(IdInfo::LibelleProduit), None);
}

#[test]
fn test_get_set_date_heure() {
    let mut context: Context = Context::default();

    // Nothing is set at first
    assert!(context
        .get_option_info_u64(IdInfo::DateAAMMJJHeureHHMMSS)
        .is_none());
    assert!(context.get_option_info_u32(IdInfo::DateAAMMJJ).is_none());
    assert!(context.get_option_info_u32(IdInfo::HeureHHMMSS).is_none());
    assert!(context.get_option_info_u16(IdInfo::HeureHHMM).is_none());

    // Setting the packed time also sets the hours-minutes projection
    context.set_info_u32(IdInfo::HeureHHMMSS, 13_14_15);
    assert_eq!(context.get_option_info_u16(IdInfo::HeureHHMM), Some(13_14));

    // Setting the packed date-time sets the date...
    context.set_info_u64(IdInfo::DateAAMMJJHeureHHMMSS, 1_02_03_10_11_12);
    assert_eq!(context.get_option_info_u32(IdInfo::DateAAMMJJ), Some(1_02_03));
    // ... the packed time...
    assert_eq!(
        context.get_option_info_u32(IdInfo::HeureHHMMSS),
        Some(10_11_12)
    );
    // ... and the hours-minutes projection
    assert_eq!(context.get_option_info_u16(IdInfo::HeureHHMM), Some(10_11));
}

#[test]
fn test_domain_clamp() {
    let mut context = Context::default();

    // A write above the declared maximum is silently dropped: the value
    // stays unset...
    context.set_info_u32(IdInfo::Predetermination, 100_000);
    assert_eq!(context.get_option_info_u32(IdInfo::Predetermination), None);

    // ... or keeps its earlier value
    context.set_info_u32(IdInfo::Predetermination, 99_999);
    context.set_info_u32(IdInfo::Predetermination, 100_000);
    assert_eq!(
        context.get_option_info_u32(IdInfo::Predetermination),
        Some(99_999)
    );

    // Setting the date alone leaves the packed date-time unset
    context.set_info_u32(IdInfo::DateAAMMJJ, 24_01_02);
    assert_eq!(context.get_option_info_u64(IdInfo::DateAAMMJJHeureHHMMSS), None);
}

#[test]
fn test_labels_and_format() {
    let context = Context::default();
    assert_eq!(context.get_info_label(IdInfo::Ack), "Acquit message");
    assert_eq!(
        context.get_info_label(IdInfo::LibelleTableProduits(3)),
        "Libellé table produit #3"
    );
    assert_eq!(context.get_info_format(IdInfo::Ack), FormatInfo::Bool);
    assert_eq!(context.get_info_format(IdInfo::LibelleProduit), FormatInfo::String(10));
}
