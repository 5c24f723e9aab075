//! Shared machinery for the product-movement messages (numbers 60 to 79):
//! their catalog entries, the request builder over the per-message identifier
//! lists, and the common ACK/NACK-plus-error-code response decoding.

use vstd::prelude::*;

use crate::context::{
    lemma_wf_entry, valid_id, Context, IdInfo, TValue,
};
use crate::field::{all_digits, dec_value, pow10, Field};
use crate::frame::{views_of, Frame};
use crate::protocol::{ACK, NACK};
use crate::st2150::{Edition2150, ProtocolError};

verus! {

/// Is this the number of a product-movement message?
pub open spec fn mouvement_num(num: u8) -> bool {
    num == 60 || num == 61 || num == 62 || num == 63 || num == 65 || num == 66 || num == 67 || num
        == 70 || num == 71 || num == 75 || num == 76 || num == 77 || num == 78
}

/// Context identifiers each product-movement request needs, in wire order.
pub open spec fn mouvement_request_ids(num: u8) -> Seq<IdInfo> {
    if num == 60 {
        seq![
            IdInfo::Predetermination,
            IdInfo::CodeProduit,
            IdInfo::NumeroCompartiment,
            IdInfo::NumeroFlexible,
            IdInfo::FinirFlexibleVide,
        ]
    } else if num == 61 {
        seq![
            IdInfo::Predetermination,
            IdInfo::CodeProduit,
            IdInfo::OrdreCompartiments,
            IdInfo::NumeroFlexible,
            IdInfo::FinirFlexibleVide,
        ]
    } else if num == 62 {
        seq![IdInfo::CodeProduit, IdInfo::NumeroCompartiment, IdInfo::NumeroFlexible]
    } else if num == 63 {
        seq![IdInfo::CodeProduit, IdInfo::OrdreCompartiments, IdInfo::NumeroFlexible]
    } else if num == 65 {
        seq![
            IdInfo::CodeProduit,
            IdInfo::NumeroCompartiment,
            IdInfo::NumeroCompartimentFinal,
            IdInfo::NumeroFlexible,
            IdInfo::NumeroFlexibleFinal,
            IdInfo::FinirFlexibleVide,
        ]
    } else if num == 66 {
        seq![
            IdInfo::Predetermination,
            IdInfo::CodeProduit,
            IdInfo::CodeProduitFinal,
            IdInfo::NumeroCompartiment,
            IdInfo::NumeroCompartimentFinal,
            IdInfo::NumeroFlexible,
            IdInfo::NumeroFlexibleFinal,
            IdInfo::FinirFlexibleVide,
        ]
    } else if num == 67 {
        seq![
            IdInfo::Predetermination,
            IdInfo::CodeProduit,
            IdInfo::CodeProduitFinal,
            IdInfo::OrdreCompartiments,
            IdInfo::NumeroCompartimentFinal,
            IdInfo::NumeroFlexible,
            IdInfo::NumeroFlexibleFinal,
            IdInfo::FinirFlexibleVide,
        ]
    } else if num == 70 {
        seq![
            IdInfo::Predetermination,
            IdInfo::CodeProduit,
            IdInfo::NumeroCompartiment,
            IdInfo::FinirFlexibleVide,
        ]
    } else if num == 71 {
        seq![IdInfo::CodeProduit, IdInfo::NumeroCompartiment]
    } else if num == 75 {
        seq![
            IdInfo::Predetermination,
            IdInfo::CodeProduit,
            IdInfo::NumeroCompartiment,
            IdInfo::NumeroCompartimentFinal,
            IdInfo::NumeroFlexible,
            IdInfo::FinirFlexibleVide,
        ]
    } else if num == 76 {
        seq![IdInfo::CodeProduit, IdInfo::NumeroCompartimentFinal]
    } else if num == 77 {
        seq![IdInfo::CodeProduit, IdInfo::NumeroCompartimentFinal, IdInfo::NumeroFlexible]
    } else {
        seq![IdInfo::CodeProduit]
    }
}

/// Edition of the specification each product-movement message belongs to.
pub fn edition_st2150(message_num: u8) -> (r: Edition2150)
    ensures
        r == Edition2150::C,
{
    let _ = message_num;
    Edition2150::C
}

/// Short label of each product-movement request, as a character sequence.
pub open spec fn mouvement_message_str(num: u8) -> Seq<char> {
    if num == 60 {
        "Prédétermination pompée"@
    } else if num == 61 {
        "Prédétermination pompée multi-compartiments"@
    } else if num == 62 {
        "Prédétermination pompée libre"@
    } else if num == 63 {
        "Prédétermination pompée libre multi-compartiments"@
    } else if num == 65 {
        "Purge"@
    } else if num == 66 {
        "Prédétermination avec anticipation de purge"@
    } else if num == 67 {
        "Prédé. avec anticipation de purge multi-comparts"@
    } else if num == 70 {
        "Prédétermination gravitaire"@
    } else if num == 71 {
        "Prédétermination gravitaire libre"@
    } else if num == 75 {
        "Transfert compartiment"@
    } else if num == 76 {
        "Chargement produit vers compartiment"@
    } else if num == 77 {
        "Libération (vidange collecteur)"@
    } else {
        "Vidage gravitaire"@
    }
}

/// Short label of each product-movement request.
pub fn message_str(message_num: u8) -> (r: &'static str)
    requires
        mouvement_num(message_num),
    ensures
        r@ == mouvement_message_str(message_num),
{
    match message_num {
        60 => "Prédétermination pompée",
        61 => "Prédétermination pompée multi-compartiments",
        62 => "Prédétermination pompée libre",
        63 => "Prédétermination pompée libre multi-compartiments",
        65 => "Purge",
        66 => "Prédétermination avec anticipation de purge",
        67 => "Prédé. avec anticipation de purge multi-comparts",
        70 => "Prédétermination gravitaire",
        71 => "Prédétermination gravitaire libre",
        75 => "Transfert compartiment",
        76 => "Chargement produit vers compartiment",
        77 => "Libération (vidange collecteur)",
        _ => "Vidage gravitaire",
    }
}

/// Context identifiers each product-movement request needs.
pub fn id_infos_request(message_num: u8) -> (r: Vec<IdInfo>)
    requires
        mouvement_num(message_num),
    ensures
        r@ == mouvement_request_ids(message_num),
        forall|i: int| 0 <= i < r@.len() ==> valid_id(#[trigger] r@[i]),
{
    let r = match message_num {
        60 => vec![
            IdInfo::Predetermination,
            IdInfo::CodeProduit,
            IdInfo::NumeroCompartiment,
            IdInfo::NumeroFlexible,
            IdInfo::FinirFlexibleVide,
        ],
        61 => vec![
            IdInfo::Predetermination,
            IdInfo::CodeProduit,
            IdInfo::OrdreCompartiments,
            IdInfo::NumeroFlexible,
            IdInfo::FinirFlexibleVide,
        ],
        62 => vec![IdInfo::CodeProduit, IdInfo::NumeroCompartiment, IdInfo::NumeroFlexible],
        63 => vec![IdInfo::CodeProduit, IdInfo::OrdreCompartiments, IdInfo::NumeroFlexible],
        65 => vec![
            IdInfo::CodeProduit,
            IdInfo::NumeroCompartiment,
            IdInfo::NumeroCompartimentFinal,
            IdInfo::NumeroFlexible,
            IdInfo::NumeroFlexibleFinal,
            IdInfo::FinirFlexibleVide,
        ],
        66 => vec![
            IdInfo::Predetermination,
            IdInfo::CodeProduit,
            IdInfo::CodeProduitFinal,
            IdInfo::NumeroCompartiment,
            IdInfo::NumeroCompartimentFinal,
            IdInfo::NumeroFlexible,
            IdInfo::NumeroFlexibleFinal,
            IdInfo::FinirFlexibleVide,
        ],
        67 => vec![
            IdInfo::Predetermination,
            IdInfo::CodeProduit,
            IdInfo::CodeProduitFinal,
            IdInfo::OrdreCompartiments,
            IdInfo::NumeroCompartimentFinal,
            IdInfo::NumeroFlexible,
            IdInfo::NumeroFlexibleFinal,
            IdInfo::FinirFlexibleVide,
        ],
        70 => vec![
            IdInfo::Predetermination,
            IdInfo::CodeProduit,
            IdInfo::NumeroCompartiment,
            IdInfo::FinirFlexibleVide,
        ],
        71 => vec![IdInfo::CodeProduit, IdInfo::NumeroCompartiment],
        75 => vec![
            IdInfo::Predetermination,
            IdInfo::CodeProduit,
            IdInfo::NumeroCompartiment,
            IdInfo::NumeroCompartimentFinal,
            IdInfo::NumeroFlexible,
            IdInfo::FinirFlexibleVide,
        ],
        76 => vec![IdInfo::CodeProduit, IdInfo::NumeroCompartimentFinal],
        77 => vec![IdInfo::CodeProduit, IdInfo::NumeroCompartimentFinal, IdInfo::NumeroFlexible],
        _ => vec![IdInfo::CodeProduit],
    };
    proof {
        assert(r@ =~= mouvement_request_ids(message_num));
        assert forall|i: int| 0 <= i < r@.len() implies valid_id(#[trigger] r@[i]) by {
        }
    }
    r
}

/// Context identifiers each product-movement response fills.
pub fn id_infos_response(message_num: u8) -> (r: Vec<IdInfo>)
    ensures
        r@ =~= seq![IdInfo::Ack, IdInfo::Nack, IdInfo::CodeErreurMouvementProduit],
{
    let _ = message_num;
    let r = vec![IdInfo::Ack, IdInfo::Nack, IdInfo::CodeErreurMouvementProduit];
    r
}

/// Lengths of the two fields of every product-movement response: the
/// acknowledge byte and the two-digit error code.
pub fn rep_len_fields(message_num: u8) -> (r: Vec<usize>)
    ensures
        r@ =~= seq![1usize, 2usize],
{
    let _ = message_num;
    let r = vec![1usize, 2usize];
    r
}

/// The wire bytes one required identifier contributes to a product-movement
/// request, given what the context holds: quantities on five digits, codes
/// and numbers as one raw byte offset by `'0'`, the compartment order
/// right-padded with zeros on nine digits, the empty-hose flag as `'V'` or
/// `'0'`.
pub open spec fn mouvement_field_bytes(id: IdInfo, c: Context) -> Seq<u8> {
    match id {
        IdInfo::Predetermination => match c.value_of(id) {
            Some(TValue::U32(v)) => crate::field::dec_fixed(v as nat, 5),
            _ => Seq::empty(),
        },
        IdInfo::OrdreCompartiments => match c.value_of(id) {
            Some(TValue::U32(v)) => ordre_field_bytes(v),
            _ => Seq::empty(),
        },
        IdInfo::FinirFlexibleVide => match c.value_of(id) {
            Some(TValue::Bool(b)) => seq![if b { 86u8 } else { 48u8 }],
            _ => Seq::empty(),
        },
        _ => match c.value_of(id) {
            Some(TValue::U8(v)) => seq![(48 + v) as u8],
            _ => Seq::empty(),
        },
    }
}

/// The compartment order on the wire: the digits of the value, completed
/// with zeros on the right to nine bytes.
pub open spec fn ordre_field_bytes(v: u32) -> Seq<u8> {
    crate::field::dec_min(v as nat) + Seq::new(
        (9 - crate::field::dec_min(v as nat).len()) as nat,
        |i: int| 48u8,
    )
}

/// Build the request of a product-movement message: each required identifier
/// encoded in wire order — quantities on five digits, codes and numbers as
/// one raw byte offset by `'0'`, the compartment order right-padded with
/// zeros on nine digits, the empty-hose flag as `'V'` or `'0'`. Succeeds
/// exactly when every required identifier is set in the context.
pub fn create_frame_request(message_num: u8, context: &Context) -> (r: Result<
    Frame,
    ProtocolError,
>)
    requires
        mouvement_num(message_num),
        context.wf(),
    ensures
        r is Ok <==> crate::messages::all_ids_set(*context, mouvement_request_ids(message_num)),
        r matches Ok(f) ==> f.message_num == message_num && f.fields@.len()
            == mouvement_request_ids(message_num).len() && (forall|k: int|
            0 <= k < f.fields@.len() ==> (#[trigger] f.fields@[k])@ == mouvement_field_bytes(
                mouvement_request_ids(message_num)[k],
                *context,
            )),
        r matches Err(e) ==> e is ContextMissing,
{
    let ids = id_infos_request(message_num);
    let mut req = Frame::new(message_num);
    let mut i: usize = 0;
    while i < ids.len()
        invariant
            context.wf(),
            ids@ == mouvement_request_ids(message_num),
            forall|k: int| 0 <= k < ids@.len() ==> valid_id(#[trigger] ids@[k]),
            0 <= i <= ids@.len(),
            req.message_num == message_num,
            req.fields@.len() == i,
            forall|k: int| 0 <= k < i ==> context.is_set(#[trigger] ids@[k]),
            forall|k: int|
                0 <= k < i ==> (#[trigger] req.fields@[k])@ == mouvement_field_bytes(
                    ids@[k],
                    *context,
                ),
        decreases ids@.len() - i,
    {
        let id = ids[i];
        if !context.has_value(id) {
            proof {
                assert(!context.is_set(ids@[i as int]));
            }
            return Err(ProtocolError::ContextMissing(crate::context::get_info_label_for(id)));
        }
        proof {
            lemma_wf_entry(*context, id);
            assert(pow10(5) == 100000 && pow10(9) == 1000000000) by {
                assert(pow10(0) == 1);
                assert(pow10(1) == 10);
                assert(pow10(2) == 100);
                assert(pow10(3) == 1000);
                assert(pow10(4) == 10000);
                assert(pow10(5) == 100000);
                assert(pow10(6) == 1000000);
                assert(pow10(7) == 10000000);
                assert(pow10(8) == 100000000);
            }
        }
        match id {
            IdInfo::Predetermination => {
                let prede = match context.get_option_info_u32(IdInfo::Predetermination) {
                    Some(v) => v,
                    None => {
                        return Err(ProtocolError::ContextMissing(
                            crate::context::get_info_label_for(id),
                        ));
                    },
                };
                req.add_field(Field::encode_number(prede as u64, 5));
                proof {
                    assert(req.fields@[i as int]@ == mouvement_field_bytes(ids@[i as int], *context));
                }
            },
            IdInfo::CodeProduit => {
                let code = match context.get_option_info_u8(IdInfo::CodeProduit) {
                    Some(v) => v,
                    None => {
                        return Err(ProtocolError::ContextMissing(
                            crate::context::get_info_label_for(id),
                        ));
                    },
                };
                req.add_field(Field::encode_binary(48 + code));
                proof {
                    assert(req.fields@[i as int]@ == mouvement_field_bytes(ids@[i as int], *context));
                }
            },
            IdInfo::CodeProduitFinal => {
                let code = match context.get_option_info_u8(IdInfo::CodeProduitFinal) {
                    Some(v) => v,
                    None => {
                        return Err(ProtocolError::ContextMissing(
                            crate::context::get_info_label_for(id),
                        ));
                    },
                };
                req.add_field(Field::encode_binary(48 + code));
                proof {
                    assert(req.fields@[i as int]@ == mouvement_field_bytes(ids@[i as int], *context));
                }
            },
            IdInfo::NumeroCompartiment => {
                let num = match context.get_option_info_u8(IdInfo::NumeroCompartiment) {
                    Some(v) => v,
                    None => {
                        return Err(ProtocolError::ContextMissing(
                            crate::context::get_info_label_for(id),
                        ));
                    },
                };
                req.add_field(Field::encode_binary(48 + num));
                proof {
                    assert(req.fields@[i as int]@ == mouvement_field_bytes(ids@[i as int], *context));
                }
            },
            IdInfo::NumeroCompartimentFinal => {
                let num = match context.get_option_info_u8(IdInfo::NumeroCompartimentFinal) {
                    Some(v) => v,
                    None => {
                        return Err(ProtocolError::ContextMissing(
                            crate::context::get_info_label_for(id),
                        ));
                    },
                };
                req.add_field(Field::encode_binary(48 + num));
                proof {
                    assert(req.fields@[i as int]@ == mouvement_field_bytes(ids@[i as int], *context));
                }
            },
            IdInfo::OrdreCompartiments => {
                let ordre = match context.get_option_info_u32(IdInfo::OrdreCompartiments) {
                    Some(v) => v,
                    None => {
                        return Err(ProtocolError::ContextMissing(
                            crate::context::get_info_label_for(id),
                        ));
                    },
                };
                // the compartment order keeps its leading digits: the digits
                // of the value, completed with zeros on the right
                proof {
                    crate::field::lemma_dec_min_len(ordre as nat, 9);
                }
                let digits = crate::field::dec_string(ordre as u64);
                let ghost dseq = crate::field::dec_min(ordre as nat);
                let mut padded = digits;
                proof {
                    crate::field::lemma_dec_min_digits(ordre as nat);
                    assert(vstd::utf8::is_ascii_chars(padded@)) by {
                        assert forall|j: int|
                            0 <= j < padded@.len() implies '\0' <= #[trigger] padded@[j]
                            <= '\u{7f}' by {
                            assert(padded@[j] == dseq[j] as char);
                            assert(crate::field::is_digit(dseq[j]));
                        }
                    }
                    assert(padded@ =~= crate::ascii::chars_of_bytes(dseq) + Seq::new(
                        (padded@.len() - dseq.len()) as nat,
                        |j: int| '0',
                    ));
                }
                let mut l = padded.as_str().unicode_len();
                while l < 9
                    invariant
                        dseq == crate::field::dec_min(ordre as nat),
                        l == padded@.len(),
                        dseq.len() <= l <= 9,
                        vstd::utf8::is_ascii_chars(padded@),
                        padded@ == crate::ascii::chars_of_bytes(dseq) + Seq::new(
                            (l - dseq.len()) as nat,
                            |j: int| '0',
                        ),
                    decreases 9 - l,
                {
                    padded.append("0");
                    proof {
                        reveal_strlit("0");
                        assert(vstd::utf8::is_ascii_chars(padded@));
                        assert(padded@ =~= crate::ascii::chars_of_bytes(dseq) + Seq::new(
                            (l + 1 - dseq.len()) as nat,
                            |j: int| '0',
                        ));
                    }
                    l = l + 1;
                }
                req.add_field(Field::encode_str(padded.as_str(), 9));
                proof {
                    assert(req.fields@[i as int]@ =~= ordre_field_bytes(ordre)) by {
                        assert forall|j: int|
                            0 <= j < 9 implies crate::field::str_field(padded@, 9)[j]
                            == #[trigger] ordre_field_bytes(ordre)[j] by {
                            if j < dseq.len() {
                                assert(padded@[j] == dseq[j] as char);
                                assert(dseq[j] < 128);
                            } else {
                                assert(padded@[j] == '0');
                            }
                        }
                    }
                    assert(req.fields@[i as int]@ == mouvement_field_bytes(ids@[i as int], *context));
                }
            },
            IdInfo::NumeroFlexible => {
                let num = match context.get_option_info_u8(IdInfo::NumeroFlexible) {
                    Some(v) => v,
                    None => {
                        return Err(ProtocolError::ContextMissing(
                            crate::context::get_info_label_for(id),
                        ));
                    },
                };
                req.add_field(Field::encode_binary(48 + num));
                proof {
                    assert(req.fields@[i as int]@ == mouvement_field_bytes(ids@[i as int], *context));
                }
            },
            IdInfo::NumeroFlexibleFinal => {
                let num = match context.get_option_info_u8(IdInfo::NumeroFlexibleFinal) {
                    Some(v) => v,
                    None => {
                        return Err(ProtocolError::ContextMissing(
                            crate::context::get_info_label_for(id),
                        ));
                    },
                };
                req.add_field(Field::encode_binary(48 + num));
                proof {
                    assert(req.fields@[i as int]@ == mouvement_field_bytes(ids@[i as int], *context));
                }
            },
            IdInfo::FinirFlexibleVide => {
                let finir_vide = match context.get_option_info_bool(IdInfo::FinirFlexibleVide) {
                    Some(v) => v,
                    None => {
                        return Err(ProtocolError::ContextMissing(
                            crate::context::get_info_label_for(id),
                        ));
                    },
                };
                if finir_vide {
                    req.add_field(Field::encode_char('V'));
                } else {
                    req.add_field(Field::encode_char('0'));
                }
                proof {
                    assert(('V' as u8) == 86 && ('0' as u8) == 48);
                    assert(req.fields@[i as int]@ == mouvement_field_bytes(ids@[i as int], *context));
                }
            },
            _ => {
                proof {
                    assert(false);
                }
                return Err(ProtocolError::ContextMissing(crate::context::get_info_label_for(id)));
            },
        }
        i = i + 1;
    }
    Ok(req)
}

/// The two response fields of a product-movement message are well formed:
/// the ACK or NACK sentinel, then a two-digit error code.
pub open spec fn mouvement_rep_ok(fs: Seq<Seq<u8>>) -> bool {
    &&& fs.len() == 2
    &&& fs[0].len() == 1 && (fs[0][0] == ACK || fs[0][0] == NACK)
    &&& all_digits(fs[1]) && dec_value(fs[1]) <= u8::MAX
}

/// The identifiers a product-movement response writes.
pub open spec fn mouvement_rep_id(id: IdInfo) -> bool {
    ||| id == IdInfo::Ack
    ||| id == IdInfo::Nack
    ||| id == IdInfo::CodeErreurMouvementProduit
}

/// Write a well-formed product-movement response into the context: the two
/// acknowledge flags and the movement error code.
pub fn update_context_from_rep(message_num: u8, context: &mut Context, frame: &Frame) -> (r:
    Result<(), ProtocolError>)
    requires
        old(context).wf(),
        frame.fields@.len() == 2,
    ensures
        final(context).wf(),
        r is Ok <==> mouvement_rep_ok(views_of(frame.fields@)),
        r matches Err(e) ==> !(e is NoReply),
        r is Ok ==> ({
            let fs = views_of(frame.fields@);
            &&& final(context).value_of(IdInfo::Ack) == Some(TValue::Bool(fs[0][0] == ACK))
            &&& final(context).value_of(IdInfo::Nack) == Some(TValue::Bool(fs[0][0] == NACK))
            &&& final(context).value_of(IdInfo::CodeErreurMouvementProduit) == Some(
                TValue::U8(dec_value(fs[1]) as u8),
            )
        }),
        ({
            let fs = views_of(frame.fields@);
            fs[0].len() == 1 && !(fs[0][0] == ACK || fs[0][0] == NACK)
        }) ==> (r matches Err(e) && e is IllegalFieldCharDecode && final(context).value_of(
            IdInfo::Ack,
        ) == Some(TValue::Bool(false)) && final(context).value_of(IdInfo::Nack) == Some(
            TValue::Bool(false),
        )),
        forall|id2: IdInfo|
            valid_id(id2) && !mouvement_rep_id(id2) ==> #[trigger] final(context).value_of(id2)
                == old(context).value_of(id2),
{
    let _ = message_num;
    proof {
        assert(views_of(frame.fields@)[0] == frame.fields@[0]@);
        assert(views_of(frame.fields@)[1] == frame.fields@[1]@);
    }

    // #0: ACK or NACK
    match frame.fields[0].decode_binary() {
        Ok(b) => {
            if b == ACK {
                context.set_info_bool(IdInfo::Ack, true);
                context.set_info_bool(IdInfo::Nack, false);
            } else if b == NACK {
                context.set_info_bool(IdInfo::Ack, false);
                context.set_info_bool(IdInfo::Nack, true);
            } else {
                context.set_info_bool(IdInfo::Ack, false);
                context.set_info_bool(IdInfo::Nack, false);
                return Err(ProtocolError::IllegalFieldCharDecode(
                    String::from_str("Ack/Nack"),
                    frame.fields[0].clone(),
                    b,
                ));
            }
        },
        Err(e) => {
            return Err(e);
        },
    }

    // #1: the movement-specific error code
    match frame.fields[1].decode_number_u8() {
        Ok(code_erreur) => {
            context.set_info_u8(IdInfo::CodeErreurMouvementProduit, code_erreur);
        },
        Err(e) => {
            return Err(e);
        },
    }

    proof {
        crate::field::lemma_dec_value_nonneg(views_of(frame.fields@)[1]);
    }
    Ok(())
}

} // verus!
