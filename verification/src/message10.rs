//! Message 10, "instantaneous information": no request field; the response
//! carries the totalizer, the instantaneous flow rate and temperature (both
//! tenths-scaled on the wire), the current quantity and the preset.

use vstd::prelude::*;

use crate::context::{
    set_u32_eff, valid_id, Context, IdInfo, TValue,
};
use crate::field::{all_digits, dec_value, digits_part, signed_value};
use crate::frame::{expected_len, sum_lens, views_of, Frame};
use crate::serial_com::CommonSerialComTrait;
use crate::st2150::{Edition2150, ProtocolError, ST2150};

verus! {

/// Message 10: instantaneous information.
#[derive(Default)]
pub struct Message10 {}

/// The five response fields of message 10 are well formed: four unsigned
/// decimal runs and one signed tenths-scaled temperature.
pub open spec fn message10_rep_ok(fs: Seq<Seq<u8>>) -> bool {
    &&& fs.len() == 5
    &&& all_digits(fs[0]) && dec_value(fs[0]) <= u32::MAX
    &&& all_digits(fs[1]) && dec_value(fs[1]) <= u16::MAX
    &&& all_digits(fs[2]) && dec_value(fs[2]) <= u32::MAX
    &&& fs[3].len() >= 1 && all_digits(digits_part(fs[3])) && i16::MIN <= signed_value(fs[3])
        <= i16::MAX
    &&& all_digits(fs[4]) && dec_value(fs[4]) <= u32::MAX
}

/// The identifiers message 10's response writes.
pub open spec fn message10_rep_id(id: IdInfo) -> bool {
    ||| id == IdInfo::Totalisateur
    ||| id == IdInfo::DebitInstant
    ||| id == IdInfo::QuantitePrincipale
    ||| id == IdInfo::TemperatureInstant
    ||| id == IdInfo::Predetermination
}

impl Message10 {
    /// This message's number.
    pub fn message_num(&self) -> (r: u8)
        ensures
            r == 10,
    {
        10
    }

    /// Edition of the specification this message belongs to.
    pub fn edition_st2150(&self) -> (r: Edition2150)
        ensures
            r == Edition2150::A,
    {
        Edition2150::A
    }

    /// Short label of the message.
    pub fn message_str(&self) -> (r: &'static str)
        ensures
            r@ == "Informations instantanées"@,
    {
        "Informations instantanées"
    }

    /// Context identifiers the request needs.
    pub fn id_infos_request(&self) -> (r: Vec<IdInfo>)
        ensures
            r@.len() == 0,
    {
        Vec::new()
    }

    /// Context identifiers the response fills.
    pub fn id_infos_response(&self) -> (r: Vec<IdInfo>)
        ensures
            r@ =~= seq![
                IdInfo::Totalisateur,
                IdInfo::DebitInstant,
                IdInfo::QuantitePrincipale,
                IdInfo::TemperatureInstant,
                IdInfo::Predetermination,
            ],
    {
        let r = vec![
            IdInfo::Totalisateur,
            IdInfo::DebitInstant,
            IdInfo::QuantitePrincipale,
            IdInfo::TemperatureInstant,
            IdInfo::Predetermination,
        ];
        r
    }

    /// All the request's identifiers are set (there are none).
    pub fn availability(&self, context: &Context) -> (r: Result<(), ProtocolError>)
        requires
            context.wf(),
        ensures
            r is Ok,
    {
        let ids = self.id_infos_request();
        crate::messages::availability(context, &ids)
    }

    /// Write a well-formed response into the context. Succeeds exactly on
    /// well-formed fields; a late bad field leaves the earlier identifiers
    /// written.
    pub fn update_context_from_rep(&self, frame: &Frame, context: &mut Context) -> (r: Result<
        (),
        ProtocolError,
    >)
        requires
            old(context).wf(),
            frame.fields@.len() == 5,
        ensures
            final(context).wf(),
            r is Ok <==> message10_rep_ok(views_of(frame.fields@)),
            r matches Err(e) ==> !(e is NoReply),
            r is Ok ==> ({
                let fs = views_of(frame.fields@);
                &&& final(context).value_of(IdInfo::Totalisateur) == Some(
                    TValue::U32(dec_value(fs[0]) as u32),
                )
                &&& final(context).value_of(IdInfo::DebitInstant) == Some(
                    TValue::Tenths(dec_value(fs[1]) as i32),
                )
                &&& final(context).value_of(IdInfo::QuantitePrincipale) == Some(
                    TValue::U32(dec_value(fs[2]) as u32),
                )
                &&& final(context).value_of(IdInfo::TemperatureInstant) == Some(
                    TValue::Tenths(signed_value(fs[3]) as i32),
                )
                &&& set_u32_eff(
                    old(context).value_of(IdInfo::Predetermination),
                    final(context).value_of(IdInfo::Predetermination),
                    IdInfo::Predetermination,
                    dec_value(fs[4]) as u32,
                )
            }),
            forall|id2: IdInfo|
                valid_id(id2) && !message10_rep_id(id2) ==> #[trigger] final(context).value_of(id2)
                    == old(context).value_of(id2),
    {
        proof {
            let fs = views_of(frame.fields@);
            assert(fs[0] == frame.fields@[0]@);
            assert(fs[1] == frame.fields@[1]@);
            assert(fs[2] == frame.fields@[2]@);
            assert(fs[3] == frame.fields@[3]@);
            assert(fs[4] == frame.fields@[4]@);
        }
        // #0: totalizer
        match frame.fields[0].decode_number_u32() {
            Ok(v) => context.set_info_u32(IdInfo::Totalisateur, v),
            Err(e) => {
                return Err(e);
            },
        }

        // #1: instantaneous flow rate, in tenths
        match frame.fields[1].decode_number_u16() {
            Ok(v) => context.set_info_tenths(IdInfo::DebitInstant, v as i32),
            Err(e) => {
                return Err(e);
            },
        }

        // #2: current quantity
        match frame.fields[2].decode_number_u32() {
            Ok(v) => context.set_info_u32(IdInfo::QuantitePrincipale, v),
            Err(e) => {
                return Err(e);
            },
        }

        // #3: instantaneous temperature, in signed tenths
        match frame.fields[3].decode_signed_number_i16() {
            Ok(v) => context.set_info_tenths(IdInfo::TemperatureInstant, v as i32),
            Err(e) => {
                return Err(e);
            },
        }

        // #4: preset
        match frame.fields[4].decode_number_u32() {
            Ok(v) => context.set_info_u32(IdInfo::Predetermination, v),
            Err(e) => {
                return Err(e);
            },
        }

        proof {
            let fs = views_of(frame.fields@);
            crate::field::lemma_dec_value_nonneg(fs[0]);
            crate::field::lemma_dec_value_nonneg(fs[1]);
            crate::field::lemma_dec_value_nonneg(fs[2]);
            crate::field::lemma_dec_value_nonneg(fs[4]);
        }
        Ok(())
    }

    /// One full vacation of message 10.
    pub fn do_vacation<P: CommonSerialComTrait>(
        &self,
        st2150: &mut ST2150<P>,
        context: &mut Context,
    ) -> (r: Result<(), ProtocolError>)
        requires
            old(context).wf(),
        ensures
            final(context).wf(),
            r == Err::<(), ProtocolError>(ProtocolError::NoReply) ==> forall|id2: IdInfo|
                valid_id(id2) ==> #[trigger] final(context).value_of(id2) == old(context).value_of(id2),
            r is Ok ==> final(context).is_set(IdInfo::Totalisateur) && final(context).is_set(
                IdInfo::DebitInstant,
            ) && final(context).is_set(IdInfo::QuantitePrincipale) && final(context).is_set(
                IdInfo::TemperatureInstant,
            ),
            forall|id2: IdInfo|
                valid_id(id2) && !message10_rep_id(id2) ==> #[trigger] final(context).value_of(id2)
                    == old(context).value_of(id2),
    {
        let req = Frame::new(10);
        st2150.send_req(&req);

        let lens: Vec<usize> = vec![8, 4, 5, 4, 5];
        proof {
            assert(lens@ =~= seq![8usize, 4, 5, 4, 5]);
            reveal_with_fuel(sum_lens, 7);
            assert(expected_len(lens@) == 38);
        }
        let buffer = match st2150.wait_rep(lens.as_slice()) {
            Ok(b) => b,
            Err(e) => {
                return Err(e);
            },
        };

        let frame = match st2150.try_from_buffer(buffer.as_slice(), 10, lens.as_slice()) {
            Ok(f) => f,
            Err(e) => {
                return Err(e);
            },
        };

        self.update_context_from_rep(&frame, context)
    }
}

} // verus!
