//! Message 34, "split record": the request names a day, an order number and
//! a split number; the response carries the delivered quantity, the
//! distribution type and the start and end times.

use vstd::prelude::*;

use crate::context::{lemma_wf_entry, valid_id, Context, IdInfo, TValue};
use crate::field::{all_digits, dec_fixed, dec_value, pow10, Field};
use crate::frame::{expected_len, sum_lens, views_of, Frame};
use crate::serial_com::CommonSerialComTrait;
use crate::st2150::{Edition2150, ProtocolError, ST2150};

verus! {

/// Message 34: split record.
#[derive(Default)]
pub struct Message34 {}

/// The four response fields of message 34 are well formed.
pub open spec fn message34_rep_ok(fs: Seq<Seq<u8>>) -> bool {
    &&& fs.len() == 4
    &&& all_digits(fs[0]) && dec_value(fs[0]) <= u32::MAX
    &&& fs[1].len() == 1 && 32 <= fs[1][0] <= 127
    &&& all_digits(fs[2]) && dec_value(fs[2]) <= u16::MAX
    &&& all_digits(fs[3]) && dec_value(fs[3]) <= u16::MAX
}

/// The identifiers message 34's response writes.
pub open spec fn message34_rep_id(id: IdInfo) -> bool {
    ||| id == IdInfo::QuantitePrincipale
    ||| id == IdInfo::TypeDistribution
    ||| id == IdInfo::HeureHHMMDebut
    ||| id == IdInfo::HeureHHMMFin
}

impl Message34 {
    /// This message's number.
    pub fn message_num(&self) -> (r: u8)
        ensures
            r == 34,
    {
        34
    }

    /// Edition of the specification this message belongs to.
    pub fn edition_st2150(&self) -> (r: Edition2150)
        ensures
            r == Edition2150::A,
    {
        Edition2150::A
    }

    /// Short label of the message.
    pub fn message_str(&self) -> (r: &'static str)
        ensures
            r@ == "Relevé fractionnement"@,
    {
        "Relevé fractionnement"
    }

    /// Context identifiers the request needs.
    pub fn id_infos_request(&self) -> (r: Vec<IdInfo>)
        ensures
            r@ =~= seq![IdInfo::Quantieme, IdInfo::IndexJournalier, IdInfo::IndexFractionnement],
    {
        let r = vec![IdInfo::Quantieme, IdInfo::IndexJournalier, IdInfo::IndexFractionnement];
        r
    }

    /// Context identifiers the response fills.
    pub fn id_infos_response(&self) -> (r: Vec<IdInfo>)
        ensures
            r@ =~= seq![
                IdInfo::QuantitePrincipale,
                IdInfo::TypeDistribution,
                IdInfo::HeureHHMMDebut,
                IdInfo::HeureHHMMFin,
            ],
    {
        let r = vec![
            IdInfo::QuantitePrincipale,
            IdInfo::TypeDistribution,
            IdInfo::HeureHHMMDebut,
            IdInfo::HeureHHMMFin,
        ];
        r
    }

    /// Are the day, order and split numbers set?
    pub fn availability(&self, context: &Context) -> (r: Result<(), ProtocolError>)
        requires
            context.wf(),
        ensures
            r is Ok <==> context.is_set(IdInfo::Quantieme) && context.is_set(
                IdInfo::IndexJournalier,
            ) && context.is_set(IdInfo::IndexFractionnement),
            r matches Err(e) ==> e is ContextMissing,
    {
        let ids = self.id_infos_request();
        let r = crate::messages::availability(context, &ids);
        proof {
            if crate::messages::all_ids_set(*context, ids@) {
                assert(context.is_set(ids@[0]));
                assert(context.is_set(ids@[1]));
                assert(context.is_set(ids@[2]));
            }
            if context.is_set(IdInfo::Quantieme) && context.is_set(IdInfo::IndexJournalier)
                && context.is_set(IdInfo::IndexFractionnement) {
                assert forall|i: int| 0 <= i < ids@.len() implies context.is_set(
                    #[trigger] ids@[i],
                ) by {
                    assert(ids@[i] == IdInfo::Quantieme || ids@[i] == IdInfo::IndexJournalier
                        || ids@[i] == IdInfo::IndexFractionnement);
                }
            }
        }
        r
    }

    /// Build the request: day, order and split numbers, three digits each.
    pub fn build_request(&self, context: &Context) -> (r: Result<Frame, ProtocolError>)
        requires
            context.wf(),
        ensures
            r is Ok <==> context.is_set(IdInfo::Quantieme) && context.is_set(
                IdInfo::IndexJournalier,
            ) && context.is_set(IdInfo::IndexFractionnement),
            r matches Ok(f) ==> f.message_num == 34 && f.fields@.len() == 3,
            context.value_of(IdInfo::Quantieme) matches Some(TValue::U16(q)) ==> (
            context.value_of(IdInfo::IndexJournalier) matches Some(TValue::U16(x)) ==> (
            context.value_of(IdInfo::IndexFractionnement) matches Some(TValue::U16(y)) ==> (
            r matches Ok(f) && views_of(f.fields@) =~= seq![
                dec_fixed(q as nat, 3),
                dec_fixed(x as nat, 3),
                dec_fixed(y as nat, 3),
            ]))),
    {
        proof {
            lemma_wf_entry(*context, IdInfo::Quantieme);
            lemma_wf_entry(*context, IdInfo::IndexJournalier);
            lemma_wf_entry(*context, IdInfo::IndexFractionnement);
        }
        let quantieme = match context.get_option_info_u16(IdInfo::Quantieme) {
            Some(v) => v,
            None => {
                return Err(ProtocolError::ContextMissing(crate::context::get_info_label_for(
                    IdInfo::Quantieme,
                )));
            },
        };
        let index_journalier = match context.get_option_info_u16(IdInfo::IndexJournalier) {
            Some(v) => v,
            None => {
                return Err(ProtocolError::ContextMissing(crate::context::get_info_label_for(
                    IdInfo::IndexJournalier,
                )));
            },
        };
        let index_fractionnement = match context.get_option_info_u16(IdInfo::IndexFractionnement) {
            Some(v) => v,
            None => {
                return Err(ProtocolError::ContextMissing(crate::context::get_info_label_for(
                    IdInfo::IndexFractionnement,
                )));
            },
        };
        proof {
            assert(pow10(3) == 1000) by {
                assert(pow10(0) == 1);
                assert(pow10(1) == 10);
                assert(pow10(2) == 100);
            }
        }
        let mut req = Frame::new(34);
        req.add_field(Field::encode_number(quantieme as u64, 3));
        req.add_field(Field::encode_number(index_journalier as u64, 3));
        req.add_field(Field::encode_number(index_fractionnement as u64, 3));
        proof {
            assert(views_of(req.fields@) =~= seq![
                dec_fixed(quantieme as nat, 3),
                dec_fixed(index_journalier as nat, 3),
                dec_fixed(index_fractionnement as nat, 3),
            ]);
        }
        Ok(req)
    }

    /// Write a well-formed response into the context.
    pub fn update_context_from_rep(&self, frame: &Frame, context: &mut Context) -> (r: Result<
        (),
        ProtocolError,
    >)
        requires
            old(context).wf(),
            frame.fields@.len() == 4,
        ensures
            final(context).wf(),
            r is Ok <==> message34_rep_ok(views_of(frame.fields@)),
            r matches Err(e) ==> !(e is NoReply),
            r is Ok ==> ({
                let fs = views_of(frame.fields@);
                &&& final(context).value_of(IdInfo::QuantitePrincipale) == Some(
                    TValue::U32(dec_value(fs[0]) as u32),
                )
                &&& final(context).value_of(IdInfo::TypeDistribution) == Some(
                    TValue::Char(fs[1][0] as char),
                )
                &&& final(context).value_of(IdInfo::HeureHHMMDebut) == Some(
                    TValue::U16(dec_value(fs[2]) as u16),
                )
                &&& final(context).value_of(IdInfo::HeureHHMMFin) == Some(
                    TValue::U16(dec_value(fs[3]) as u16),
                )
            }),
            forall|id2: IdInfo|
                valid_id(id2) && !message34_rep_id(id2) ==> #[trigger] final(context).value_of(id2)
                    == old(context).value_of(id2),
    {
        // #0: delivered quantity
        match frame.fields[0].decode_number_u32() {
            Ok(v) => context.set_info_u32(IdInfo::QuantitePrincipale, v),
            Err(e) => {
                return Err(e);
            },
        }

        // #1: distribution type
        match frame.fields[1].decode_char() {
            Ok(c) => context.set_info_char(IdInfo::TypeDistribution, c),
            Err(e) => {
                return Err(e);
            },
        }

        // #2: start time
        match frame.fields[2].decode_number_u16() {
            Ok(v) => context.set_info_u16(IdInfo::HeureHHMMDebut, v),
            Err(e) => {
                return Err(e);
            },
        }

        // #3: end time
        match frame.fields[3].decode_number_u16() {
            Ok(v) => context.set_info_u16(IdInfo::HeureHHMMFin, v),
            Err(e) => {
                return Err(e);
            },
        }

        proof {
            let fs = views_of(frame.fields@);
            crate::field::lemma_dec_value_nonneg(fs[0]);
            crate::field::lemma_dec_value_nonneg(fs[2]);
            crate::field::lemma_dec_value_nonneg(fs[3]);
        }
        Ok(())
    }

    /// One full vacation of message 34.
    pub fn do_vacation<P: CommonSerialComTrait>(
        &self,
        st2150: &mut ST2150<P>,
        context: &mut Context,
    ) -> (r: Result<(), ProtocolError>)
        requires
            old(context).wf(),
        ensures
            final(context).wf(),
            r == Err::<(), ProtocolError>(ProtocolError::NoReply) ==> forall|id2: IdInfo|
                valid_id(id2) ==> #[trigger] final(context).value_of(id2) == old(context).value_of(id2),
            !(old(context).is_set(IdInfo::Quantieme) && old(context).is_set(
                IdInfo::IndexJournalier,
            ) && old(context).is_set(IdInfo::IndexFractionnement)) ==> (r matches Err(ProtocolError::ContextMissing(_)) && (forall|id2: IdInfo|
                valid_id(id2) ==> #[trigger] final(context).value_of(id2) == old(context).value_of(
                    id2,
                )) && final(st2150).last_req == old(st2150).last_req && final(st2150).last_rep
                == old(st2150).last_rep),
            r is Ok ==> final(context).is_set(IdInfo::QuantitePrincipale) && final(context).is_set(IdInfo::TypeDistribution) && final(context).is_set(IdInfo::HeureHHMMDebut)
                && final(context).is_set(IdInfo::HeureHHMMFin),
            forall|id2: IdInfo|
                valid_id(id2) && !message34_rep_id(id2) ==> #[trigger] final(context).value_of(id2)
                    == old(context).value_of(id2),
    {
        match self.availability(context) {
            Ok(()) => (),
            Err(e) => {
                return Err(e);
            },
        }
        let req = match self.build_request(context) {
            Ok(f) => f,
            Err(e) => {
                return Err(e);
            },
        };
        st2150.send_req(&req);

        let lens: Vec<usize> = vec![5, 1, 4, 4];
        proof {
            assert(lens@ =~= seq![5usize, 1, 4, 4]);
            reveal_with_fuel(sum_lens, 6);
            assert(expected_len(lens@) == 25);
        }
        let buffer = match st2150.wait_rep(lens.as_slice()) {
            Ok(b) => b,
            Err(e) => {
                return Err(e);
            },
        };
        let frame = match st2150.try_from_buffer(buffer.as_slice(), 34, lens.as_slice()) {
            Ok(f) => f,
            Err(e) => {
                return Err(e);
            },
        };
        self.update_context_from_rep(&frame, context)
    }
}

} // verus!
