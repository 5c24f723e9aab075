//! Message 36, "event record": the request names a date and an order number;
//! the response carries the day's event count, the event's time, its
//! technical data and its label.

use vstd::prelude::*;

use crate::context::{clip, lemma_wf_entry, valid_id, Context, IdInfo, TValue};
use crate::field::{all_digits, dec_fixed, dec_value, pow10, Field};
use crate::frame::{expected_len, sum_lens, views_of, Frame};
use crate::serial_com::CommonSerialComTrait;
use crate::st2150::{Edition2150, ProtocolError, ST2150};

verus! {

/// Message 36: event record.
#[derive(Default)]
pub struct Message36 {}

/// The four response fields of message 36 are well formed.
pub open spec fn message36_rep_ok(fs: Seq<Seq<u8>>) -> bool {
    &&& fs.len() == 4
    &&& all_digits(fs[0]) && dec_value(fs[0]) <= u16::MAX
    &&& all_digits(fs[1]) && dec_value(fs[1]) <= u32::MAX
    &&& vstd::utf8::valid_utf8(fs[2])
    &&& vstd::utf8::valid_utf8(fs[3])
}

/// The identifiers message 36's response writes, the derived hours-minutes
/// projection included.
pub open spec fn message36_rep_id(id: IdInfo) -> bool {
    ||| id == IdInfo::NbJEvents
    ||| id == IdInfo::HeureHHMMSS
    ||| id == IdInfo::HeureHHMM
    ||| id == IdInfo::DataJEvent
    ||| id == IdInfo::LibelleJEvent
}

impl Message36 {
    /// This message's number.
    pub fn message_num(&self) -> (r: u8)
        ensures
            r == 36,
    {
        36
    }

    /// Edition of the specification this message belongs to.
    pub fn edition_st2150(&self) -> (r: Edition2150)
        ensures
            r == Edition2150::C,
    {
        Edition2150::C
    }

    /// Short label of the message.
    pub fn message_str(&self) -> (r: &'static str)
        ensures
            r@ == "Relevé d'un événement"@,
    {
        "Relevé d'un événement"
    }

    /// Context identifiers the request needs.
    pub fn id_infos_request(&self) -> (r: Vec<IdInfo>)
        ensures
            r@ =~= seq![IdInfo::DateAAMMJJ, IdInfo::IndexJournalier],
    {
        let r = vec![IdInfo::DateAAMMJJ, IdInfo::IndexJournalier];
        r
    }

    /// Context identifiers the response fills.
    pub fn id_infos_response(&self) -> (r: Vec<IdInfo>)
        ensures
            r@ =~= seq![
                IdInfo::NbJEvents,
                IdInfo::HeureHHMMSS,
                IdInfo::DataJEvent,
                IdInfo::LibelleJEvent,
            ],
    {
        let r = vec![
            IdInfo::NbJEvents,
            IdInfo::HeureHHMMSS,
            IdInfo::DataJEvent,
            IdInfo::LibelleJEvent,
        ];
        r
    }

    /// Are the date and the daily order number set?
    pub fn availability(&self, context: &Context) -> (r: Result<(), ProtocolError>)
        requires
            context.wf(),
        ensures
            r is Ok <==> context.is_set(IdInfo::DateAAMMJJ) && context.is_set(
                IdInfo::IndexJournalier,
            ),
            r matches Err(e) ==> e is ContextMissing,
    {
        let ids = self.id_infos_request();
        let r = crate::messages::availability(context, &ids);
        proof {
            if crate::messages::all_ids_set(*context, ids@) {
                assert(context.is_set(ids@[0]));
                assert(context.is_set(ids@[1]));
            }
            if context.is_set(IdInfo::DateAAMMJJ) && context.is_set(IdInfo::IndexJournalier) {
                assert forall|i: int| 0 <= i < ids@.len() implies context.is_set(
                    #[trigger] ids@[i],
                ) by {
                    assert(ids@[i] == IdInfo::DateAAMMJJ || ids@[i] == IdInfo::IndexJournalier);
                }
            }
        }
        r
    }

    /// Build the request: the date on six digits and the daily order number
    /// on three.
    pub fn build_request(&self, context: &Context) -> (r: Result<Frame, ProtocolError>)
        requires
            context.wf(),
        ensures
            r is Ok <==> context.is_set(IdInfo::DateAAMMJJ) && context.is_set(
                IdInfo::IndexJournalier,
            ),
            r matches Ok(f) ==> f.message_num == 36 && f.fields@.len() == 2,
            context.value_of(IdInfo::DateAAMMJJ) matches Some(TValue::U32(d)) ==> (
            context.value_of(IdInfo::IndexJournalier) matches Some(TValue::U16(x)) ==> (r matches
                Ok(f) && views_of(f.fields@) =~= seq![
                dec_fixed(d as nat, 6),
                dec_fixed(x as nat, 3),
            ])),
    {
        proof {
            lemma_wf_entry(*context, IdInfo::DateAAMMJJ);
            lemma_wf_entry(*context, IdInfo::IndexJournalier);
        }
        let date = match context.get_option_info_u32(IdInfo::DateAAMMJJ) {
            Some(v) => v,
            None => {
                return Err(ProtocolError::ContextMissing(crate::context::get_info_label_for(
                    IdInfo::DateAAMMJJ,
                )));
            },
        };
        let index_journalier = match context.get_option_info_u16(IdInfo::IndexJournalier) {
            Some(v) => v,
            None => {
                return Err(ProtocolError::ContextMissing(crate::context::get_info_label_for(
                    IdInfo::IndexJournalier,
                )));
            },
        };
        proof {
            assert(pow10(6) == 1000000 && pow10(3) == 1000) by {
                assert(pow10(0) == 1);
                assert(pow10(1) == 10);
                assert(pow10(2) == 100);
                assert(pow10(3) == 1000);
                assert(pow10(4) == 10000);
                assert(pow10(5) == 100000);
            }
        }
        let mut req = Frame::new(36);
        req.add_field(Field::encode_number(date as u64, 6));
        req.add_field(Field::encode_number(index_journalier as u64, 3));
        proof {
            assert(views_of(req.fields@) =~= seq![
                dec_fixed(date as nat, 6),
                dec_fixed(index_journalier as nat, 3),
            ]);
        }
        Ok(req)
    }

    /// Write a well-formed response into the context; writing the packed
    /// time refreshes the hours-minutes projection.
    pub fn update_context_from_rep(&self, frame: &Frame, context: &mut Context) -> (r: Result<
        (),
        ProtocolError,
    >)
        requires
            old(context).wf(),
            frame.fields@.len() == 4,
        ensures
            final(context).wf(),
            r is Ok <==> message36_rep_ok(views_of(frame.fields@)),
            r matches Err(e) ==> !(e is NoReply),
            r is Ok ==> ({
                let fs = views_of(frame.fields@);
                &&& final(context).value_of(IdInfo::NbJEvents) == Some(
                    TValue::U16(dec_value(fs[0]) as u16),
                )
                &&& final(context).value_of(IdInfo::HeureHHMMSS) == Some(
                    TValue::U32(dec_value(fs[1]) as u32),
                )
                &&& final(context).value_of(IdInfo::DataJEvent) matches Some(TValue::String(t))
                    && t@ == clip(vstd::utf8::decode_utf8(fs[2]), 12)
                &&& final(context).value_of(IdInfo::LibelleJEvent) matches Some(TValue::String(t))
                    && t@ == clip(vstd::utf8::decode_utf8(fs[3]), 40)
            }),
            forall|id2: IdInfo|
                valid_id(id2) && !message36_rep_id(id2) ==> #[trigger] final(context).value_of(id2)
                    == old(context).value_of(id2),
    {
        // #0: event count for the day
        match frame.fields[0].decode_number_u16() {
            Ok(v) => context.set_info_u16(IdInfo::NbJEvents, v),
            Err(e) => {
                return Err(e);
            },
        }

        // #1: time of the event, cascading to its hours-minutes projection
        match frame.fields[1].decode_number_u32() {
            Ok(v) => context.set_info_u32(IdInfo::HeureHHMMSS, v),
            Err(e) => {
                return Err(e);
            },
        }

        // #2: technical data of the event
        match frame.fields[2].decode_str() {
            Ok(s) => context.set_info_string(IdInfo::DataJEvent, s.as_str()),
            Err(e) => {
                return Err(e);
            },
        }

        // #3: label of the event
        match frame.fields[3].decode_str() {
            Ok(s) => context.set_info_string(IdInfo::LibelleJEvent, s.as_str()),
            Err(e) => {
                return Err(e);
            },
        }

        proof {
            let fs = views_of(frame.fields@);
            crate::field::lemma_dec_value_nonneg(fs[0]);
            crate::field::lemma_dec_value_nonneg(fs[1]);
        }
        Ok(())
    }

    /// One full vacation of message 36.
    pub fn do_vacation<P: CommonSerialComTrait>(
        &self,
        st2150: &mut ST2150<P>,
        context: &mut Context,
    ) -> (r: Result<(), ProtocolError>)
        requires
            old(context).wf(),
        ensures
            final(context).wf(),
            r == Err::<(), ProtocolError>(ProtocolError::NoReply) ==> forall|id2: IdInfo|
                valid_id(id2) ==> #[trigger] final(context).value_of(id2) == old(context).value_of(id2),
            !(old(context).is_set(IdInfo::DateAAMMJJ) && old(context).is_set(
                IdInfo::IndexJournalier,
            )) ==> (r matches Err(ProtocolError::ContextMissing(_)) && (forall|id2: IdInfo|
                valid_id(id2) ==> #[trigger] final(context).value_of(id2) == old(context).value_of(
                    id2,
                )) && final(st2150).last_req == old(st2150).last_req && final(st2150).last_rep
                == old(st2150).last_rep),
            r is Ok ==> final(context).is_set(IdInfo::NbJEvents) && final(context).is_set(
                IdInfo::HeureHHMMSS,
            ) && final(context).is_set(IdInfo::DataJEvent) && final(context).is_set(
                IdInfo::LibelleJEvent,
            ),
            forall|id2: IdInfo|
                valid_id(id2) && !message36_rep_id(id2) ==> #[trigger] final(context).value_of(id2)
                    == old(context).value_of(id2),
    {
        match self.availability(context) {
            Ok(()) => (),
            Err(e) => {
                return Err(e);
            },
        }
        let req = match self.build_request(context) {
            Ok(f) => f,
            Err(e) => {
                return Err(e);
            },
        };
        st2150.send_req(&req);

        let lens: Vec<usize> = vec![3, 6, 12, 40];
        proof {
            assert(lens@ =~= seq![3usize, 6, 12, 40]);
            reveal_with_fuel(sum_lens, 6);
            assert(expected_len(lens@) == 72);
        }
        let buffer = match st2150.wait_rep(lens.as_slice()) {
            Ok(b) => b,
            Err(e) => {
                return Err(e);
            },
        };
        let frame = match st2150.try_from_buffer(buffer.as_slice(), 36, lens.as_slice()) {
            Ok(f) => f,
            Err(e) => {
                return Err(e);
            },
        };
        self.update_context_from_rep(&frame, context)
    }
}

} // verus!
