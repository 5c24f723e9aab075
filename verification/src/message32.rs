//! Message 32, "measurement record": the request names a day and an order
//! number; the response carries the product label, the delivered quantity,
//! the mean temperature, the split count and the start and end times.

use vstd::prelude::*;

use crate::context::{
    clip, lemma_wf_entry, set_u16_eff, valid_id, Context, IdInfo, TValue,
};
use crate::field::{
    all_digits, dec_fixed, dec_value, digits_part, pow10, signed_value, Field,
};
use crate::frame::{expected_len, sum_lens, views_of, Frame};
use crate::serial_com::CommonSerialComTrait;
use crate::st2150::{Edition2150, ProtocolError, ST2150};

verus! {

/// Message 32: measurement record.
#[derive(Default)]
pub struct Message32 {}

/// The six response fields of message 32 are well formed.
pub open spec fn message32_rep_ok(fs: Seq<Seq<u8>>) -> bool {
    &&& fs.len() == 6
    &&& vstd::utf8::valid_utf8(fs[0])
    &&& all_digits(fs[1]) && dec_value(fs[1]) <= u32::MAX
    &&& fs[2].len() >= 1 && all_digits(digits_part(fs[2])) && i16::MIN <= signed_value(fs[2])
        <= i16::MAX
    &&& all_digits(fs[3]) && dec_value(fs[3]) <= u16::MAX
    &&& all_digits(fs[4]) && dec_value(fs[4]) <= u16::MAX
    &&& all_digits(fs[5]) && dec_value(fs[5]) <= u16::MAX
}

/// The identifiers message 32's response writes.
pub open spec fn message32_rep_id(id: IdInfo) -> bool {
    ||| id == IdInfo::LibelleProduit
    ||| id == IdInfo::QuantitePrincipale
    ||| id == IdInfo::TemperatureMoyen
    ||| id == IdInfo::NbFractionnements
    ||| id == IdInfo::HeureHHMMDebut
    ||| id == IdInfo::HeureHHMMFin
}

impl Message32 {
    /// This message's number.
    pub fn message_num(&self) -> (r: u8)
        ensures
            r == 32,
    {
        32
    }

    /// Edition of the specification this message belongs to.
    pub fn edition_st2150(&self) -> (r: Edition2150)
        ensures
            r == Edition2150::A,
    {
        Edition2150::A
    }

    /// Short label of the message.
    pub fn message_str(&self) -> (r: &'static str)
        ensures
            r@ == "Relevé mesurage"@,
    {
        "Relevé mesurage"
    }

    /// Context identifiers the request needs.
    pub fn id_infos_request(&self) -> (r: Vec<IdInfo>)
        ensures
            r@ =~= seq![IdInfo::Quantieme, IdInfo::IndexJournalier],
    {
        let r = vec![IdInfo::Quantieme, IdInfo::IndexJournalier];
        r
    }

    /// Context identifiers the response fills.
    pub fn id_infos_response(&self) -> (r: Vec<IdInfo>)
        ensures
            r@ =~= seq![
                IdInfo::LibelleProduit,
                IdInfo::QuantitePrincipale,
                IdInfo::TemperatureMoyen,
                IdInfo::NbFractionnements,
                IdInfo::HeureHHMMDebut,
                IdInfo::HeureHHMMFin,
            ],
    {
        let r = vec![
            IdInfo::LibelleProduit,
            IdInfo::QuantitePrincipale,
            IdInfo::TemperatureMoyen,
            IdInfo::NbFractionnements,
            IdInfo::HeureHHMMDebut,
            IdInfo::HeureHHMMFin,
        ];
        r
    }

    /// Are the day number and the daily order number set?
    pub fn availability(&self, context: &Context) -> (r: Result<(), ProtocolError>)
        requires
            context.wf(),
        ensures
            r is Ok <==> context.is_set(IdInfo::Quantieme) && context.is_set(
                IdInfo::IndexJournalier,
            ),
            r matches Err(e) ==> e is ContextMissing,
    {
        let ids = self.id_infos_request();
        let r = crate::messages::availability(context, &ids);
        proof {
            if crate::messages::all_ids_set(*context, ids@) {
                assert(context.is_set(ids@[0]));
                assert(context.is_set(ids@[1]));
            }
            if context.is_set(IdInfo::Quantieme) && context.is_set(IdInfo::IndexJournalier) {
                assert forall|i: int| 0 <= i < ids@.len() implies context.is_set(
                    #[trigger] ids@[i],
                ) by {
                    assert(ids@[i] == IdInfo::Quantieme || ids@[i] == IdInfo::IndexJournalier);
                }
            }
        }
        r
    }

    /// Build the request: the day number and the daily order number, three
    /// digits each. Succeeds exactly when both are set in the context.
    pub fn build_request(&self, context: &Context) -> (r: Result<Frame, ProtocolError>)
        requires
            context.wf(),
        ensures
            r is Ok <==> context.is_set(IdInfo::Quantieme) && context.is_set(
                IdInfo::IndexJournalier,
            ),
            r matches Ok(f) ==> f.message_num == 32 && f.fields@.len() == 2,
            context.value_of(IdInfo::Quantieme) matches Some(TValue::U16(q)) ==> (
            context.value_of(IdInfo::IndexJournalier) matches Some(TValue::U16(x)) ==> (r matches
                Ok(f) && views_of(f.fields@) =~= seq![
                dec_fixed(q as nat, 3),
                dec_fixed(x as nat, 3),
            ])),
    {
        proof {
            lemma_wf_entry(*context, IdInfo::Quantieme);
            lemma_wf_entry(*context, IdInfo::IndexJournalier);
        }
        let quantieme = match context.get_option_info_u16(IdInfo::Quantieme) {
            Some(v) => v,
            None => {
                return Err(ProtocolError::ContextMissing(crate::context::get_info_label_for(
                    IdInfo::Quantieme,
                )));
            },
        };
        let index_journalier = match context.get_option_info_u16(IdInfo::IndexJournalier) {
            Some(v) => v,
            None => {
                return Err(ProtocolError::ContextMissing(crate::context::get_info_label_for(
                    IdInfo::IndexJournalier,
                )));
            },
        };
        proof {
            assert(pow10(3) == 1000) by {
                assert(pow10(0) == 1);
                assert(pow10(1) == 10);
                assert(pow10(2) == 100);
            }
        }
        let mut req = Frame::new(32);
        req.add_field(Field::encode_number(quantieme as u64, 3));
        req.add_field(Field::encode_number(index_journalier as u64, 3));
        proof {
            assert(views_of(req.fields@) =~= seq![
                dec_fixed(quantieme as nat, 3),
                dec_fixed(index_journalier as nat, 3),
            ]);
        }
        Ok(req)
    }

    /// Write a well-formed response into the context.
    pub fn update_context_from_rep(&self, frame: &Frame, context: &mut Context) -> (r: Result<
        (),
        ProtocolError,
    >)
        requires
            old(context).wf(),
            frame.fields@.len() == 6,
        ensures
            final(context).wf(),
            r is Ok <==> message32_rep_ok(views_of(frame.fields@)),
            r matches Err(e) ==> !(e is NoReply),
            r is Ok ==> ({
                let fs = views_of(frame.fields@);
                &&& final(context).value_of(IdInfo::LibelleProduit) matches Some(TValue::String(t))
                    && t@ == clip(vstd::utf8::decode_utf8(fs[0]), 10)
                &&& final(context).value_of(IdInfo::QuantitePrincipale) == Some(
                    TValue::U32(dec_value(fs[1]) as u32),
                )
                &&& final(context).value_of(IdInfo::TemperatureMoyen) == Some(
                    TValue::Tenths(signed_value(fs[2]) as i32),
                )
                &&& final(context).value_of(IdInfo::NbFractionnements) == Some(
                    TValue::U16(dec_value(fs[3]) as u16),
                )
                &&& final(context).value_of(IdInfo::HeureHHMMDebut) == Some(
                    TValue::U16(dec_value(fs[4]) as u16),
                )
                &&& final(context).value_of(IdInfo::HeureHHMMFin) == Some(
                    TValue::U16(dec_value(fs[5]) as u16),
                )
            }),
            forall|id2: IdInfo|
                valid_id(id2) && !message32_rep_id(id2) ==> #[trigger] final(context).value_of(id2)
                    == old(context).value_of(id2),
    {
        // #0: product label
        match frame.fields[0].decode_str() {
            Ok(s) => context.set_info_string(IdInfo::LibelleProduit, s.as_str()),
            Err(e) => {
                return Err(e);
            },
        }

        // #1: delivered quantity
        match frame.fields[1].decode_number_u32() {
            Ok(v) => context.set_info_u32(IdInfo::QuantitePrincipale, v),
            Err(e) => {
                return Err(e);
            },
        }

        // #2: mean temperature, in signed tenths
        match frame.fields[2].decode_signed_number_i16() {
            Ok(v) => context.set_info_tenths(IdInfo::TemperatureMoyen, v as i32),
            Err(e) => {
                return Err(e);
            },
        }

        // #3: split count
        match frame.fields[3].decode_number_u16() {
            Ok(v) => context.set_info_u16(IdInfo::NbFractionnements, v),
            Err(e) => {
                return Err(e);
            },
        }

        // #4: start time
        match frame.fields[4].decode_number_u16() {
            Ok(v) => context.set_info_u16(IdInfo::HeureHHMMDebut, v),
            Err(e) => {
                return Err(e);
            },
        }

        // #5: end time
        match frame.fields[5].decode_number_u16() {
            Ok(v) => context.set_info_u16(IdInfo::HeureHHMMFin, v),
            Err(e) => {
                return Err(e);
            },
        }

        proof {
            let fs = views_of(frame.fields@);
            crate::field::lemma_dec_value_nonneg(fs[1]);
            crate::field::lemma_dec_value_nonneg(fs[3]);
            crate::field::lemma_dec_value_nonneg(fs[4]);
            crate::field::lemma_dec_value_nonneg(fs[5]);
        }
        Ok(())
    }

    /// One full vacation of message 32.
    pub fn do_vacation<P: CommonSerialComTrait>(
        &self,
        st2150: &mut ST2150<P>,
        context: &mut Context,
    ) -> (r: Result<(), ProtocolError>)
        requires
            old(context).wf(),
        ensures
            final(context).wf(),
            r == Err::<(), ProtocolError>(ProtocolError::NoReply) ==> forall|id2: IdInfo|
                valid_id(id2) ==> #[trigger] final(context).value_of(id2) == old(context).value_of(id2),
            !(old(context).is_set(IdInfo::Quantieme) && old(context).is_set(
                IdInfo::IndexJournalier,
            )) ==> (r matches Err(ProtocolError::ContextMissing(_)) && (forall|id2: IdInfo|
                valid_id(id2) ==> #[trigger] final(context).value_of(id2) == old(context).value_of(
                    id2,
                )) && final(st2150).last_req == old(st2150).last_req && final(st2150).last_rep
                == old(st2150).last_rep),
            r is Ok ==> final(context).is_set(IdInfo::LibelleProduit) && final(context).is_set(
                IdInfo::QuantitePrincipale,
            ) && final(context).is_set(IdInfo::TemperatureMoyen),
            forall|id2: IdInfo|
                valid_id(id2) && !message32_rep_id(id2) ==> #[trigger] final(context).value_of(id2)
                    == old(context).value_of(id2),
    {
        match self.availability(context) {
            Ok(()) => (),
            Err(e) => {
                return Err(e);
            },
        }
        let req = match self.build_request(context) {
            Ok(f) => f,
            Err(e) => {
                return Err(e);
            },
        };
        st2150.send_req(&req);

        let lens: Vec<usize> = vec![5, 5, 4, 3, 4, 4];
        proof {
            assert(lens@ =~= seq![5usize, 5, 4, 3, 4, 4]);
            reveal_with_fuel(sum_lens, 8);
            assert(expected_len(lens@) == 38);
        }
        let buffer = match st2150.wait_rep(lens.as_slice()) {
            Ok(b) => b,
            Err(e) => {
                return Err(e);
            },
        };
        let frame = match st2150.try_from_buffer(buffer.as_slice(), 32, lens.as_slice()) {
            Ok(f) => f,
            Err(e) => {
                return Err(e);
            },
        };
        self.update_context_from_rep(&frame, context)
    }
}

} // verus!
