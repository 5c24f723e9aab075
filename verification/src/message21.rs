//! Message 21, "last measurement, balance request": no request field; the
//! response is either a bare NACK frame or a full data frame, told apart by
//! trying the NACK shape first.

use vstd::prelude::*;

use crate::context::{
    set_u16_eff, set_u8_eff, valid_id, Context, IdInfo, TValue,
};
use crate::field::{all_digits, dec_value, digits_part, signed_value};
use crate::frame::{
    checksum_ok, expected_len, rec_num, sum_lens, views_of, well_delimited, Frame,
};
use crate::protocol::{NACK, SEPARATOR};
use crate::serial_com::CommonSerialComTrait;
use crate::st2150::{Edition2150, ProtocolError, ST2150};

verus! {

/// Message 21: last measurement, balance request.
#[derive(Default)]
pub struct Message21 {}

/// The received buffer parses as the short NACK shape of message 21: a valid
/// frame of number 21 with a single one-byte field.
pub open spec fn message21_nack_shape(b: Seq<u8>) -> bool {
    &&& well_delimited(b)
    &&& checksum_ok(b)
    &&& rec_num(b) == 21
    &&& b.len() == 9
    &&& b[3] == SEPARATOR
    &&& b[5] == SEPARATOR
}

/// The ten response fields of the full shape of message 21 are well formed.
pub open spec fn message21_rep_ok(fs: Seq<Seq<u8>>) -> bool {
    &&& fs.len() == 10
    &&& all_digits(fs[0]) && dec_value(fs[0]) <= u32::MAX
    &&& fs[1].len() >= 1 && all_digits(digits_part(fs[1])) && i16::MIN <= signed_value(fs[1])
        <= i16::MAX
    &&& all_digits(fs[2]) && dec_value(fs[2]) <= u32::MAX
    &&& all_digits(fs[3]) && dec_value(fs[3]) <= u32::MAX
    &&& all_digits(fs[4]) && dec_value(fs[4]) <= u16::MAX
    &&& all_digits(fs[5]) && dec_value(fs[5]) <= u16::MAX
    &&& all_digits(fs[6]) && dec_value(fs[6]) <= u16::MAX
    &&& all_digits(fs[7]) && dec_value(fs[7]) <= u8::MAX
    &&& all_digits(fs[8]) && dec_value(fs[8]) <= u16::MAX
    &&& all_digits(fs[9]) && dec_value(fs[9]) <= u16::MAX
}

/// The identifiers message 21's response can write.
pub open spec fn message21_rep_id(id: IdInfo) -> bool {
    ||| id == IdInfo::Nack
    ||| id == IdInfo::QuantitePrincipale
    ||| id == IdInfo::TemperatureMoyen
    ||| id == IdInfo::QuantiteSecondaire
    ||| id == IdInfo::Totalisateur
    ||| id == IdInfo::IndexSansRaz
    ||| id == IdInfo::IndexJournalier
    ||| id == IdInfo::Quantieme
    ||| id == IdInfo::CodeProduit
    ||| id == IdInfo::HeureHHMMDebut
    ||| id == IdInfo::HeureHHMMFin
}

impl Message21 {
    /// This message's number.
    pub fn message_num(&self) -> (r: u8)
        ensures
            r == 21,
    {
        21
    }

    /// Edition of the specification this message belongs to.
    pub fn edition_st2150(&self) -> (r: Edition2150)
        ensures
            r == Edition2150::B,
    {
        Edition2150::B
    }

    /// Short label of the message.
    pub fn message_str(&self) -> (r: &'static str)
        ensures
            r@ == "Dernier mesurage, demande de solde"@,
    {
        "Dernier mesurage, demande de solde"
    }

    /// Context identifiers the request needs.
    pub fn id_infos_request(&self) -> (r: Vec<IdInfo>)
        ensures
            r@.len() == 0,
    {
        Vec::new()
    }

    /// Context identifiers the response fills.
    pub fn id_infos_response(&self) -> (r: Vec<IdInfo>)
        ensures
            r@ =~= seq![
                IdInfo::Nack,
                IdInfo::QuantitePrincipale,
                IdInfo::TemperatureMoyen,
                IdInfo::QuantiteSecondaire,
                IdInfo::Totalisateur,
                IdInfo::IndexSansRaz,
                IdInfo::IndexJournalier,
                IdInfo::Quantieme,
                IdInfo::CodeProduit,
                IdInfo::HeureHHMMDebut,
                IdInfo::HeureHHMMFin,
            ],
    {
        let r = vec![
            IdInfo::Nack,
            IdInfo::QuantitePrincipale,
            IdInfo::TemperatureMoyen,
            IdInfo::QuantiteSecondaire,
            IdInfo::Totalisateur,
            IdInfo::IndexSansRaz,
            IdInfo::IndexJournalier,
            IdInfo::Quantieme,
            IdInfo::CodeProduit,
            IdInfo::HeureHHMMDebut,
            IdInfo::HeureHHMMFin,
        ];
        r
    }

    /// All the request's identifiers are set (there are none).
    pub fn availability(&self, context: &Context) -> (r: Result<(), ProtocolError>)
        requires
            context.wf(),
        ensures
            r is Ok,
    {
        let ids = self.id_infos_request();
        crate::messages::availability(context, &ids)
    }

    /// Write the full-shape fields into the context.
    pub fn update_context_from_rep(&self, frame: &Frame, context: &mut Context) -> (r: Result<
        (),
        ProtocolError,
    >)
        requires
            old(context).wf(),
            frame.fields@.len() == 10,
        ensures
            final(context).wf(),
            r is Ok <==> message21_rep_ok(views_of(frame.fields@)),
            r matches Err(e) ==> !(e is NoReply),
            r is Ok ==> ({
                let fs = views_of(frame.fields@);
                &&& final(context).value_of(IdInfo::QuantitePrincipale) == Some(
                    TValue::U32(dec_value(fs[0]) as u32),
                )
                &&& final(context).value_of(IdInfo::TemperatureMoyen) == Some(
                    TValue::Tenths(signed_value(fs[1]) as i32),
                )
                &&& final(context).value_of(IdInfo::QuantiteSecondaire) == Some(
                    TValue::U32(dec_value(fs[2]) as u32),
                )
                &&& final(context).value_of(IdInfo::Totalisateur) == Some(
                    TValue::U32(dec_value(fs[3]) as u32),
                )
                &&& final(context).value_of(IdInfo::IndexSansRaz) == Some(
                    TValue::U16(dec_value(fs[4]) as u16),
                )
                &&& set_u16_eff(
                    old(context).value_of(IdInfo::IndexJournalier),
                    final(context).value_of(IdInfo::IndexJournalier),
                    IdInfo::IndexJournalier,
                    dec_value(fs[5]) as u16,
                )
                &&& set_u16_eff(
                    old(context).value_of(IdInfo::Quantieme),
                    final(context).value_of(IdInfo::Quantieme),
                    IdInfo::Quantieme,
                    dec_value(fs[6]) as u16,
                )
                &&& set_u8_eff(
                    old(context).value_of(IdInfo::CodeProduit),
                    final(context).value_of(IdInfo::CodeProduit),
                    IdInfo::CodeProduit,
                    dec_value(fs[7]) as u8,
                )
                &&& final(context).value_of(IdInfo::HeureHHMMDebut) == Some(
                    TValue::U16(dec_value(fs[8]) as u16),
                )
                &&& final(context).value_of(IdInfo::HeureHHMMFin) == Some(
                    TValue::U16(dec_value(fs[9]) as u16),
                )
            }),
            forall|id2: IdInfo|
                valid_id(id2) && !message21_rep_id(id2) ==> #[trigger] final(context).value_of(id2)
                    == old(context).value_of(id2),
            final(context).value_of(IdInfo::Nack) == old(context).value_of(IdInfo::Nack),
    {
        // #0: main quantity
        match frame.fields[0].decode_number_u32() {
            Ok(v) => context.set_info_u32(IdInfo::QuantitePrincipale, v),
            Err(e) => {
                return Err(e);
            },
        }
        // #1: mean temperature, in signed tenths
        match frame.fields[1].decode_signed_number_i16() {
            Ok(v) => context.set_info_tenths(IdInfo::TemperatureMoyen, v as i32),
            Err(e) => {
                return Err(e);
            },
        }
        // #2: secondary quantity
        match frame.fields[2].decode_number_u32() {
            Ok(v) => context.set_info_u32(IdInfo::QuantiteSecondaire, v),
            Err(e) => {
                return Err(e);
            },
        }
        // #3: totalizer
        match frame.fields[3].decode_number_u32() {
            Ok(v) => context.set_info_u32(IdInfo::Totalisateur, v),
            Err(e) => {
                return Err(e);
            },
        }
        // #4: index without reset
        match frame.fields[4].decode_number_u16() {
            Ok(v) => context.set_info_u16(IdInfo::IndexSansRaz, v),
            Err(e) => {
                return Err(e);
            },
        }
        // #5: daily index
        match frame.fields[5].decode_number_u16() {
            Ok(v) => context.set_info_u16(IdInfo::IndexJournalier, v),
            Err(e) => {
                return Err(e);
            },
        }
        // #6: day number
        match frame.fields[6].decode_number_u16() {
            Ok(v) => context.set_info_u16(IdInfo::Quantieme, v),
            Err(e) => {
                return Err(e);
            },
        }
        // #7: product code
        match frame.fields[7].decode_number_u8() {
            Ok(v) => context.set_info_u8(IdInfo::CodeProduit, v),
            Err(e) => {
                return Err(e);
            },
        }
        // #8: start time
        match frame.fields[8].decode_number_u16() {
            Ok(v) => context.set_info_u16(IdInfo::HeureHHMMDebut, v),
            Err(e) => {
                return Err(e);
            },
        }
        // #9: end time
        match frame.fields[9].decode_number_u16() {
            Ok(v) => context.set_info_u16(IdInfo::HeureHHMMFin, v),
            Err(e) => {
                return Err(e);
            },
        }
        proof {
            let fs = views_of(frame.fields@);
            crate::field::lemma_dec_value_nonneg(fs[0]);
            crate::field::lemma_dec_value_nonneg(fs[2]);
            crate::field::lemma_dec_value_nonneg(fs[3]);
            crate::field::lemma_dec_value_nonneg(fs[4]);
            crate::field::lemma_dec_value_nonneg(fs[5]);
            crate::field::lemma_dec_value_nonneg(fs[6]);
            crate::field::lemma_dec_value_nonneg(fs[7]);
            crate::field::lemma_dec_value_nonneg(fs[8]);
            crate::field::lemma_dec_value_nonneg(fs[9]);
        }
        Ok(())
    }

    /// One full vacation of message 21. The response can take two shapes;
    /// the short NACK shape is tried first, so a NACK-shaped buffer is
    /// decoded as a NACK even where a longer shape would also have been
    /// plausible: on a NACK-shaped reply, only the refusal flag is written.
    pub fn do_vacation<P: CommonSerialComTrait>(
        &self,
        st2150: &mut ST2150<P>,
        context: &mut Context,
    ) -> (r: Result<(), ProtocolError>)
        requires
            old(context).wf(),
        ensures
            final(context).wf(),
            r == Err::<(), ProtocolError>(ProtocolError::NoReply) ==> forall|id2: IdInfo|
                valid_id(id2) ==> #[trigger] final(context).value_of(id2) == old(context).value_of(id2),
            final(st2150).last_rep@.len() > 0 && message21_nack_shape(final(st2150).last_rep@)
                ==> (r is Ok && final(context).value_of(IdInfo::Nack) == Some(
                TValue::Bool(final(st2150).last_rep@[4] == NACK),
            ) && (forall|id2: IdInfo|
                valid_id(id2) && id2 != IdInfo::Nack ==> #[trigger] final(context).value_of(id2)
                    == old(context).value_of(id2))),
            forall|id2: IdInfo|
                valid_id(id2) && !message21_rep_id(id2) ==> #[trigger] final(context).value_of(id2)
                    == old(context).value_of(id2),
    {
        let req = Frame::new(21);
        st2150.send_req(&req);

        let full_lens: Vec<usize> = vec![5, 4, 5, 8, 3, 3, 3, 1, 4, 4];
        let nack_lens: Vec<usize> = vec![1];
        proof {
            assert(full_lens@ =~= seq![5usize, 4, 5, 8, 3, 3, 3, 1, 4, 4]);
            assert(nack_lens@ =~= seq![1usize]);
            reveal_with_fuel(sum_lens, 12);
            assert(expected_len(full_lens@) == 57);
            assert(expected_len(nack_lens@) == 9);
        }
        let buffer = match st2150.wait_rep(full_lens.as_slice()) {
            Ok(b) => b,
            Err(e) => {
                return Err(e);
            },
        };

        // two possible responses: try to decode a NACK frame first
        match st2150.try_from_buffer(buffer.as_slice(), 21, nack_lens.as_slice()) {
            Ok(frame) => {
                proof {
                    assert(nack_lens@.subrange(0, 0) =~= Seq::<usize>::empty());
                    assert(crate::frame::field_sep_pos(nack_lens@, 0) == 3);
                    assert(nack_lens@.subrange(0, 1) =~= nack_lens@);
                    assert(crate::frame::field_sep_pos(nack_lens@, 1) == 5);
                    // the parse succeeded, so both separators are in place
                    assert(crate::frame::seps_ok_upto(buffer@, nack_lens@, 0));
                    assert(buffer@[3] == SEPARATOR);
                    assert(crate::frame::seps_ok_upto(buffer@, nack_lens@, 1)) by {
                        assert forall|j: int|
                            0 <= j < 1 implies buffer@[#[trigger] crate::frame::field_sep_pos(
                            nack_lens@,
                            j,
                        )] == SEPARATOR by {
                            assert(buffer@[3] == SEPARATOR);
                        }
                    }
                    assert(buffer@[5] == SEPARATOR);
                    assert(crate::frame::seps_ok_upto(buffer@, nack_lens@, 2)) by {
                        assert forall|j: int|
                            0 <= j < 2 implies buffer@[#[trigger] crate::frame::field_sep_pos(
                            nack_lens@,
                            j,
                        )] == SEPARATOR by {
                            if j == 0 {
                                assert(buffer@[3] == SEPARATOR);
                            } else {
                                assert(buffer@[5] == SEPARATOR);
                            }
                        }
                    }
                    assert(frame.fields@[0]@ == buffer@.subrange(4, 5));
                }
                let nack = frame.is_nack();
                proof {
                    assert(buffer@.subrange(4, 5) =~= seq![buffer@[4]]);
                    assert(nack == (buffer@[4] == NACK)) by {
                        if buffer@[4] == NACK {
                            assert(frame.fields@[0]@ =~= seq![NACK]);
                        } else {
                            assert(frame.fields@[0]@[0] != NACK);
                        }
                    }
                }
                context.set_info_bool(IdInfo::Nack, nack);
                return Ok(());
            },
            Err(_) => {
                proof {
                    assert(nack_lens@.subrange(0, 0) =~= Seq::<usize>::empty());
                    assert(crate::frame::field_sep_pos(nack_lens@, 0) == 3);
                    assert(nack_lens@.subrange(0, 1) =~= nack_lens@);
                    assert(crate::frame::field_sep_pos(nack_lens@, 1) == 5);
                    if message21_nack_shape(buffer@) {
                        assert(crate::frame::seps_ok_upto(buffer@, nack_lens@, 2)) by {
                            assert forall|j: int|
                                0 <= j < 2 implies buffer@[#[trigger] crate::frame::field_sep_pos(
                                nack_lens@,
                                j,
                            )] == SEPARATOR by {
                                if j == 0 {
                                    assert(buffer@[3] == SEPARATOR);
                                } else {
                                    assert(buffer@[5] == SEPARATOR);
                                }
                            }
                        }
                        assert(false);
                    }
                }
            },
        }

        // otherwise: the full measurement report
        context.set_info_bool(IdInfo::Nack, false);
        let frame = match st2150.try_from_buffer(buffer.as_slice(), 21, full_lens.as_slice()) {
            Ok(f) => f,
            Err(e) => {
                return Err(e);
            },
        };
        self.update_context_from_rep(&frame, context)
    }
}

} // verus!
