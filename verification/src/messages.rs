//! Common machinery of the message catalog: the list of implemented message
//! numbers and the availability check that every message runs before building
//! its request.

use vstd::prelude::*;

use crate::context::{label_of, valid_id, Context, IdInfo};
use crate::st2150::ProtocolError;

verus! {

/// The message numbers the catalog implements.
pub const ST2150_MESSAGE_NUMBERS: [u8; 17] = [
    0,
    10,
    11,
    20,
    21,
    22,
    30,
    31,
    32,
    33,
    34,
    35,
    36,
    37,
    40,
    66,
    70,
];

/// Does the catalog implement this message number?
pub open spec fn supported_message_num(num: u8) -> bool {
    num == 0 || num == 10 || num == 11 || num == 20 || num == 21 || num == 22 || num == 30 || num
        == 31 || num == 32 || num == 33 || num == 34 || num == 35 || num == 36 || num == 37 || num
        == 40 || num == 66 || num == 70
}

/// Context identifiers each implemented message's request needs.
pub open spec fn request_ids_of(num: u8) -> Seq<IdInfo> {
    if num == 20 {
        seq![IdInfo::Predetermination, IdInfo::CodeProduit]
    } else if num == 22 {
        seq![IdInfo::IdentificationTag]
    } else if num == 31 {
        seq![IdInfo::Quantieme]
    } else if num == 32 {
        seq![IdInfo::Quantieme, IdInfo::IndexJournalier]
    } else if num == 34 {
        seq![IdInfo::Quantieme, IdInfo::IndexJournalier, IdInfo::IndexFractionnement]
    } else if num == 36 {
        seq![IdInfo::DateAAMMJJ, IdInfo::IndexJournalier]
    } else if num == 37 {
        seq![
            IdInfo::CodeProduitCompartiment(1),
            IdInfo::QuantiteCompartiment(1),
            IdInfo::CodeProduitCompartiment(2),
            IdInfo::QuantiteCompartiment(2),
            IdInfo::CodeProduitCompartiment(3),
            IdInfo::QuantiteCompartiment(3),
            IdInfo::CodeProduitCompartiment(4),
            IdInfo::QuantiteCompartiment(4),
            IdInfo::CodeProduitCompartiment(5),
            IdInfo::QuantiteCompartiment(5),
            IdInfo::CodeProduitCompartiment(6),
            IdInfo::QuantiteCompartiment(6),
            IdInfo::CodeProduitCompartiment(7),
            IdInfo::QuantiteCompartiment(7),
            IdInfo::CodeProduitCompartiment(8),
            IdInfo::QuantiteCompartiment(8),
            IdInfo::CodeProduitCompartiment(9),
            IdInfo::QuantiteCompartiment(9),
        ]
    } else if num == 40 {
        seq![IdInfo::HeureHHMM]
    } else if num == 66 || num == 70 {
        crate::helper_messages60_79::mouvement_request_ids(num)
    } else {
        Seq::empty()
    }
}

/// The request's identifiers of every implemented message, in wire order.
pub fn request_ids(message_num: u8) -> (r: Vec<IdInfo>)
    requires
        supported_message_num(message_num),
    ensures
        r@ == request_ids_of(message_num),
        forall|i: int| 0 <= i < r@.len() ==> valid_id(#[trigger] r@[i]),
{
    let r: Vec<IdInfo> = match message_num {
        20 => crate::message20::Message20 {}.id_infos_request(),
        22 => crate::message22::Message22 {}.id_infos_request(),
        31 => crate::message31::Message31 {}.id_infos_request(),
        32 => crate::message32::Message32 {}.id_infos_request(),
        34 => crate::message34::Message34 {}.id_infos_request(),
        36 => crate::message36::Message36 {}.id_infos_request(),
        37 => crate::message37::Message37 {}.id_infos_request(),
        40 => crate::message40::Message40 {}.id_infos_request(),
        66 => crate::helper_messages60_79::id_infos_request(66),
        70 => crate::helper_messages60_79::id_infos_request(70),
        _ => Vec::new(),
    };
    proof {
        if message_num == 37 {
            assert forall|i: int| 0 <= i < r@.len() implies r@[i]
                == #[trigger] request_ids_of(message_num)[i] by {
                vstd::arithmetic::div_mod::lemma_fundamental_div_mod(i, 2);
                let k = i / 2 + 1;
                if i % 2 == 0 {
                    assert(i == 2 * k - 2);
                    assert(r@[2 * k - 2] == IdInfo::CodeProduitCompartiment(k as usize));
                } else {
                    assert(i == 2 * k - 1);
                    assert(r@[2 * k - 2] == IdInfo::CodeProduitCompartiment(k as usize));
                    assert(r@[2 * k - 1] == IdInfo::QuantiteCompartiment(k as usize));
                }
            }
        }
        assert(r@ =~= request_ids_of(message_num));
        assert forall|i: int| 0 <= i < r@.len() implies valid_id(#[trigger] r@[i]) by {
        }
    }
    r
}

/// Every identifier of the list has a value in the context.
pub open spec fn all_ids_set(context: Context, ids: Seq<IdInfo>) -> bool {
    forall|i: int| 0 <= i < ids.len() ==> context.is_set(#[trigger] ids[i])
}

/// Availability check: every identifier the request needs must be set in the
/// context; the first one that is not names the error, by its label.
pub fn availability(context: &Context, ids: &Vec<IdInfo>) -> (r: Result<(), ProtocolError>)
    requires
        context.wf(),
        forall|i: int| 0 <= i < ids@.len() ==> valid_id(#[trigger] ids@[i]),
    ensures
        r is Ok <==> all_ids_set(*context, ids@),
        r matches Err(e) ==> (e matches ProtocolError::ContextMissing(l) && exists|i: int|
            0 <= i < ids@.len() && !context.is_set(#[trigger] ids@[i]) && l@ == label_of(ids@[i])
                && (forall|j: int| 0 <= j < i ==> context.is_set(#[trigger] ids@[j]))),
{
    let mut i: usize = 0;
    while i < ids.len()
        invariant
            context.wf(),
            forall|k: int| 0 <= k < ids@.len() ==> valid_id(#[trigger] ids@[k]),
            0 <= i <= ids@.len(),
            forall|j: int| 0 <= j < i ==> context.is_set(#[trigger] ids@[j]),
        decreases ids@.len() - i,
    {
        let id = ids[i];
        if !context.has_value(id) {
            let label = crate::context::get_info_label_for(id);
            proof {
                assert(!context.is_set(ids@[i as int]));
            }
            return Err(ProtocolError::ContextMissing(label));
        }
        i = i + 1;
    }
    Ok(())
}

} // verus!
