//! Message 00, "life sign": no request field; the response carries four
//! one-character flags and one raw fault byte.

use vstd::prelude::*;

use crate::context::{valid_id, Context, IdInfo, TValue};
use crate::frame::{expected_len, sum_lens, views_of, Frame};
use crate::serial_com::CommonSerialComTrait;
use crate::st2150::{Edition2150, ProtocolError, ST2150};

verus! {

/// Message 00: life sign.
#[derive(Default)]
pub struct Message00 {}

/// A one-byte field holding `'0'` or `'1'`.
pub open spec fn flag_ok(f: Seq<u8>) -> bool {
    f.len() == 1 && (f[0] == 48 || f[0] == 49)
}

/// The boolean a flag field spells.
pub open spec fn flag_val(f: Seq<u8>) -> bool {
    f[0] == 49
}

/// The five response fields of message 00 are well formed: flag, fault byte
/// between 0x20 and 0x9F, and three more flags.
pub open spec fn message00_rep_ok(fs: Seq<Seq<u8>>) -> bool {
    &&& fs.len() == 5
    &&& flag_ok(fs[0])
    &&& fs[1].len() == 1 && 0x20 <= fs[1][0] <= 0x9F
    &&& flag_ok(fs[2])
    &&& flag_ok(fs[3])
    &&& flag_ok(fs[4])
}

/// The identifiers message 00's response writes.
pub open spec fn message00_rep_id(id: IdInfo) -> bool {
    ||| id == IdInfo::EnMesurage
    ||| id == IdInfo::CodeDefaut
    ||| id == IdInfo::ArretIntermediaire
    ||| id == IdInfo::ForcagePetitDebit
    ||| id == IdInfo::ModeConnecte
}

impl Message00 {
    /// This message's number.
    pub fn message_num(&self) -> (r: u8)
        ensures
            r == 0,
    {
        0
    }

    /// Edition of the specification this message belongs to.
    pub fn edition_st2150(&self) -> (r: Edition2150)
        ensures
            r == Edition2150::A,
    {
        Edition2150::A
    }

    /// Short label of the message.
    pub fn message_str(&self) -> (r: &'static str)
        ensures
            r@ == "Signe de vie"@,
    {
        "Signe de vie"
    }

    /// Context identifiers the request needs.
    pub fn id_infos_request(&self) -> (r: Vec<IdInfo>)
        ensures
            r@.len() == 0,
    {
        Vec::new()
    }

    /// Context identifiers the response fills.
    pub fn id_infos_response(&self) -> (r: Vec<IdInfo>)
        ensures
            r@ =~= seq![
                IdInfo::EnMesurage,
                IdInfo::CodeDefaut,
                IdInfo::ArretIntermediaire,
                IdInfo::ForcagePetitDebit,
                IdInfo::ModeConnecte,
            ],
    {
        let r = vec![
            IdInfo::EnMesurage,
            IdInfo::CodeDefaut,
            IdInfo::ArretIntermediaire,
            IdInfo::ForcagePetitDebit,
            IdInfo::ModeConnecte,
        ];
        r
    }

    /// All the request's identifiers are set (there are none).
    pub fn availability(&self, context: &Context) -> (r: Result<(), ProtocolError>)
        requires
            context.wf(),
        ensures
            r is Ok,
    {
        let ids = self.id_infos_request();
        crate::messages::availability(context, &ids)
    }

    /// Write a well-formed response into the context: the measuring flag,
    /// the fault code (offset by 0x20), the intermediate-stop, low-flow
    /// forcing and connected-mode flags. Succeeds exactly on well-formed
    /// fields; decoding is not transactional, so a late bad field leaves the
    /// earlier identifiers written.
    pub fn update_context_from_rep(&self, frame: &Frame, context: &mut Context) -> (r: Result<
        (),
        ProtocolError,
    >)
        requires
            old(context).wf(),
            frame.fields@.len() == 5,
        ensures
            final(context).wf(),
            r is Ok <==> message00_rep_ok(views_of(frame.fields@)),
            r matches Err(e) ==> !(e is NoReply),
            r is Ok ==> ({
                let fs = views_of(frame.fields@);
                &&& final(context).value_of(IdInfo::EnMesurage) == Some(
                    TValue::Bool(flag_val(fs[0])),
                )
                &&& final(context).value_of(IdInfo::CodeDefaut) == Some(
                    TValue::U8((fs[1][0] - 0x20) as u8),
                )
                &&& final(context).value_of(IdInfo::ArretIntermediaire) == Some(
                    TValue::Bool(flag_val(fs[2])),
                )
                &&& final(context).value_of(IdInfo::ForcagePetitDebit) == Some(
                    TValue::Bool(flag_val(fs[3])),
                )
                &&& final(context).value_of(IdInfo::ModeConnecte) == Some(
                    TValue::Bool(flag_val(fs[4])),
                )
            }),
            forall|id2: IdInfo|
                valid_id(id2) && !message00_rep_id(id2) ==> #[trigger] final(context).value_of(id2)
                    == old(context).value_of(id2),
    {
        let ghost fs = views_of(frame.fields@);

        // #0: measuring flag
        match frame.fields[0].decode_char() {
            Ok(c) => {
                if c == '0' {
                    context.set_info_bool(IdInfo::EnMesurage, false);
                } else if c == '1' {
                    context.set_info_bool(IdInfo::EnMesurage, true);
                } else {
                    return Err(ProtocolError::IllegalRepFieldValue(
                        frame.fields[0].clone(),
                        String::from_str("en mesurage"),
                        String::from_str("'0' ou '1'"),
                    ));
                }
            },
            Err(e) => {
                return Err(e);
            },
        }

        // #1: fault code, a raw byte offset by 0x20
        match frame.fields[1].decode_binary() {
            Ok(code_defaut) => {
                if 0x20 <= code_defaut && code_defaut <= 0x9F {
                    context.set_info_u8(IdInfo::CodeDefaut, code_defaut - 0x20);
                } else {
                    return Err(ProtocolError::IllegalRepFieldValue(
                        frame.fields[1].clone(),
                        String::from_str("code défaut"),
                        String::from_str("Valeur entre 0x20 et 0x9F"),
                    ));
                }
            },
            Err(e) => {
                return Err(e);
            },
        }

        // #2: intermediate stop flag
        match frame.fields[2].decode_char() {
            Ok(c) => {
                if c == '0' {
                    context.set_info_bool(IdInfo::ArretIntermediaire, false);
                } else if c == '1' {
                    context.set_info_bool(IdInfo::ArretIntermediaire, true);
                } else {
                    return Err(ProtocolError::IllegalRepFieldValue(
                        frame.fields[2].clone(),
                        String::from_str("arrêt intermédiaire"),
                        String::from_str("'0' ou '1'"),
                    ));
                }
            },
            Err(e) => {
                return Err(e);
            },
        }

        // #3: low-flow forcing flag
        match frame.fields[3].decode_char() {
            Ok(c) => {
                if c == '0' {
                    context.set_info_bool(IdInfo::ForcagePetitDebit, false);
                } else if c == '1' {
                    context.set_info_bool(IdInfo::ForcagePetitDebit, true);
                } else {
                    return Err(ProtocolError::IllegalRepFieldValue(
                        frame.fields[3].clone(),
                        String::from_str("forçage petit debit"),
                        String::from_str("'0' ou '1'"),
                    ));
                }
            },
            Err(e) => {
                return Err(e);
            },
        }

        // #4: connected mode flag
        match frame.fields[4].decode_char() {
            Ok(c) => {
                if c == '0' {
                    context.set_info_bool(IdInfo::ModeConnecte, false);
                } else if c == '1' {
                    context.set_info_bool(IdInfo::ModeConnecte, true);
                } else {
                    return Err(ProtocolError::IllegalRepFieldValue(
                        frame.fields[4].clone(),
                        String::from_str("mode connecté"),
                        String::from_str("'0' ou '1'"),
                    ));
                }
            },
            Err(e) => {
                return Err(e);
            },
        }

        Ok(())
    }

    /// One full vacation of message 00: send the bare request, wait under
    /// the timeout policy, validate the frame, write the five flags. With no
    /// reply at all, the context is left exactly as it was; in every case
    /// only the five response identifiers can change.
    pub fn do_vacation<P: CommonSerialComTrait>(
        &self,
        st2150: &mut ST2150<P>,
        context: &mut Context,
    ) -> (r: Result<(), ProtocolError>)
        requires
            old(context).wf(),
        ensures
            final(context).wf(),
            r == Err::<(), ProtocolError>(ProtocolError::NoReply) ==> forall|id2: IdInfo|
                valid_id(id2) ==> #[trigger] final(context).value_of(id2) == old(context).value_of(id2),
            r is Ok ==> final(context).is_set(IdInfo::EnMesurage) && final(context).is_set(
                IdInfo::CodeDefaut,
            ) && final(context).is_set(IdInfo::ArretIntermediaire) && final(context).is_set(
                IdInfo::ForcagePetitDebit,
            ) && final(context).is_set(IdInfo::ModeConnecte),
            forall|id2: IdInfo|
                valid_id(id2) && !message00_rep_id(id2) ==> #[trigger] final(context).value_of(id2)
                    == old(context).value_of(id2),
    {
        let req = Frame::new(0);
        st2150.send_req(&req);

        let lens: Vec<usize> = vec![1, 1, 1, 1, 1];
        proof {
            assert(lens@ =~= seq![1usize, 1, 1, 1, 1]);
            reveal_with_fuel(sum_lens, 7);
            assert(expected_len(lens@) == 17);
        }
        let buffer = match st2150.wait_rep(lens.as_slice()) {
            Ok(b) => b,
            Err(e) => {
                return Err(e);
            },
        };

        let frame = match st2150.try_from_buffer(buffer.as_slice(), 0, lens.as_slice()) {
            Ok(f) => f,
            Err(e) => {
                return Err(e);
            },
        };

        self.update_context_from_rep(&frame, context)
    }
}

} // verus!
