//! Message 30, "meter information": no request field; the response carries
//! the meter reference and vehicle registration, the software version, the
//! packed date-time and the meter type.

use vstd::prelude::*;

use crate::context::{clip, valid_id, Context, IdInfo, TValue};
use crate::field::{all_digits, dec_value};
use crate::frame::{expected_len, sum_lens, views_of, Frame};
use crate::serial_com::CommonSerialComTrait;
use crate::st2150::{Edition2150, ProtocolError, ST2150};

verus! {

/// Message 30: meter information.
#[derive(Default)]
pub struct Message30 {}

/// The four response fields of message 30 are well formed: two ASCII texts,
/// the packed date-time digits, the meter type digit.
pub open spec fn message30_rep_ok(fs: Seq<Seq<u8>>) -> bool {
    &&& fs.len() == 4
    &&& vstd::utf8::valid_utf8(fs[0])
    &&& vstd::utf8::valid_utf8(fs[1])
    &&& all_digits(fs[2]) && dec_value(fs[2]) <= u64::MAX
    &&& all_digits(fs[3]) && dec_value(fs[3]) <= u8::MAX
}

/// The identifiers message 30's response writes, the derived date and time
/// projections included.
pub open spec fn message30_rep_id(id: IdInfo) -> bool {
    ||| id == IdInfo::ReferenceEtImmatriculation
    ||| id == IdInfo::VersionLogiciel
    ||| id == IdInfo::DateAAMMJJHeureHHMMSS
    ||| id == IdInfo::DateAAMMJJ
    ||| id == IdInfo::HeureHHMMSS
    ||| id == IdInfo::HeureHHMM
    ||| id == IdInfo::TypeCompteur
}

impl Message30 {
    /// This message's number.
    pub fn message_num(&self) -> (r: u8)
        ensures
            r == 30,
    {
        30
    }

    /// Edition of the specification this message belongs to.
    pub fn edition_st2150(&self) -> (r: Edition2150)
        ensures
            r == Edition2150::A,
    {
        Edition2150::A
    }

    /// Short label of the message.
    pub fn message_str(&self) -> (r: &'static str)
        ensures
            r@ == "Information compteur"@,
    {
        "Information compteur"
    }

    /// Context identifiers the request needs.
    pub fn id_infos_request(&self) -> (r: Vec<IdInfo>)
        ensures
            r@.len() == 0,
    {
        Vec::new()
    }

    /// Context identifiers the response fills.
    pub fn id_infos_response(&self) -> (r: Vec<IdInfo>)
        ensures
            r@ =~= seq![
                IdInfo::ReferenceEtImmatriculation,
                IdInfo::VersionLogiciel,
                IdInfo::DateAAMMJJHeureHHMMSS,
                IdInfo::TypeCompteur,
            ],
    {
        let r = vec![
            IdInfo::ReferenceEtImmatriculation,
            IdInfo::VersionLogiciel,
            IdInfo::DateAAMMJJHeureHHMMSS,
            IdInfo::TypeCompteur,
        ];
        r
    }

    /// All the request's identifiers are set (there are none).
    pub fn availability(&self, context: &Context) -> (r: Result<(), ProtocolError>)
        requires
            context.wf(),
        ensures
            r is Ok,
    {
        let ids = self.id_infos_request();
        crate::messages::availability(context, &ids)
    }

    /// Write a well-formed response into the context; writing the packed
    /// date-time refreshes the date, time and hours-minutes projections.
    pub fn update_context_from_rep(&self, frame: &Frame, context: &mut Context) -> (r: Result<
        (),
        ProtocolError,
    >)
        requires
            old(context).wf(),
            frame.fields@.len() == 4,
        ensures
            final(context).wf(),
            r is Ok <==> message30_rep_ok(views_of(frame.fields@)),
            r matches Err(e) ==> !(e is NoReply),
            r is Ok ==> ({
                let fs = views_of(frame.fields@);
                let v = dec_value(fs[2]) as u64;
                &&& final(context).value_of(IdInfo::ReferenceEtImmatriculation) matches Some(
                    TValue::String(t),
                ) && t@ == clip(vstd::utf8::decode_utf8(fs[0]), 15)
                &&& final(context).value_of(IdInfo::VersionLogiciel) matches Some(
                    TValue::String(t),
                ) && t@ == clip(vstd::utf8::decode_utf8(fs[1]), 10)
                &&& final(context).value_of(IdInfo::DateAAMMJJHeureHHMMSS) == Some(TValue::U64(v))
                &&& final(context).value_of(IdInfo::HeureHHMMSS) == Some(
                    TValue::U32((v % 1000000) as u32),
                )
                &&& final(context).value_of(IdInfo::TypeCompteur) == Some(
                    TValue::U8(dec_value(fs[3]) as u8),
                )
            }),
            forall|id2: IdInfo|
                valid_id(id2) && !message30_rep_id(id2) ==> #[trigger] final(context).value_of(id2)
                    == old(context).value_of(id2),
    {
        // #0: meter reference and vehicle registration
        match frame.fields[0].decode_str() {
            Ok(s) => context.set_info_string(IdInfo::ReferenceEtImmatriculation, s.as_str()),
            Err(e) => {
                return Err(e);
            },
        }

        // #1: software version
        match frame.fields[1].decode_str() {
            Ok(s) => context.set_info_string(IdInfo::VersionLogiciel, s.as_str()),
            Err(e) => {
                return Err(e);
            },
        }

        // #2: packed date-time, cascading to its projections
        match frame.fields[2].decode_number() {
            Ok(v) => context.set_info_u64(IdInfo::DateAAMMJJHeureHHMMSS, v),
            Err(e) => {
                return Err(e);
            },
        }

        // #3: meter type
        match frame.fields[3].decode_number_u8() {
            Ok(v) => context.set_info_u8(IdInfo::TypeCompteur, v),
            Err(e) => {
                return Err(e);
            },
        }

        proof {
            let fs = views_of(frame.fields@);
            crate::field::lemma_dec_value_nonneg(fs[2]);
            crate::field::lemma_dec_value_nonneg(fs[3]);
        }
        Ok(())
    }

    /// One full vacation of message 30.
    pub fn do_vacation<P: CommonSerialComTrait>(
        &self,
        st2150: &mut ST2150<P>,
        context: &mut Context,
    ) -> (r: Result<(), ProtocolError>)
        requires
            old(context).wf(),
        ensures
            final(context).wf(),
            r == Err::<(), ProtocolError>(ProtocolError::NoReply) ==> forall|id2: IdInfo|
                valid_id(id2) ==> #[trigger] final(context).value_of(id2) == old(context).value_of(id2),
            r is Ok ==> final(context).is_set(IdInfo::ReferenceEtImmatriculation) && final(context).is_set(IdInfo::VersionLogiciel) && final(context).is_set(
                IdInfo::DateAAMMJJHeureHHMMSS,
            ) && final(context).is_set(IdInfo::TypeCompteur),
            forall|id2: IdInfo|
                valid_id(id2) && !message30_rep_id(id2) ==> #[trigger] final(context).value_of(id2)
                    == old(context).value_of(id2),
    {
        let req = Frame::new(30);
        st2150.send_req(&req);

        let lens: Vec<usize> = vec![15, 10, 12, 1];
        proof {
            assert(lens@ =~= seq![15usize, 10, 12, 1]);
            reveal_with_fuel(sum_lens, 6);
            assert(expected_len(lens@) == 49);
        }
        let buffer = match st2150.wait_rep(lens.as_slice()) {
            Ok(b) => b,
            Err(e) => {
                return Err(e);
            },
        };
        let frame = match st2150.try_from_buffer(buffer.as_slice(), 30, lens.as_slice()) {
            Ok(f) => f,
            Err(e) => {
                return Err(e);
            },
        };
        self.update_context_from_rep(&frame, context)
    }
}

} // verus!
