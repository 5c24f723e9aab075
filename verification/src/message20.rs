//! Message 20, "preset": the request carries the preset quantity and the
//! product code; the response is a bare ACK or NACK.

use vstd::prelude::*;

use crate::context::{lemma_wf_entry, valid_id, Context, IdInfo, TValue, NB_PRODUITS};
use crate::field::{dec_fixed, pow10, Field};
use crate::frame::{
    checksum_ok, expected_len, field_sep_pos, parse_spec, rec_num, seps_ok_upto, sum_lens,
    views_of, well_delimited, Frame,
};
use crate::protocol::{ACK, NACK, SEPARATOR};
use crate::serial_com::CommonSerialComTrait;
use crate::st2150::{Edition2150, ProtocolError, ST2150};

verus! {

/// Message 20: preset.
#[derive(Default)]
pub struct Message20 {}

/// The identifiers an ACK/NACK response writes.
pub open spec fn ack_nack_rep_id(id: IdInfo) -> bool {
    id == IdInfo::Ack || id == IdInfo::Nack
}

/// The received buffer is a valid frame of this number with a single
/// one-byte field — the shape of every bare ACK or NACK response.
pub open spec fn ack_nack_shape(b: Seq<u8>, num: u8) -> bool {
    &&& well_delimited(b)
    &&& checksum_ok(b)
    &&& rec_num(b) == num
    &&& b.len() == 9
    &&& b[3] == SEPARATOR
    &&& b[5] == SEPARATOR
}

/// The context's two acknowledge flags say whether the single response byte
/// was the ACK or the NACK sentinel.
pub open spec fn ack_nack_flags_written(c: Context, b: Seq<u8>) -> bool {
    &&& c.value_of(IdInfo::Nack) == Some(TValue::Bool(b[4] == NACK))
    &&& c.value_of(IdInfo::Ack) == Some(TValue::Bool(b[4] == ACK))
}

/// On an ACK/NACK-shaped buffer the parser must succeed, and the single
/// field it hands back is the acknowledge byte.
pub proof fn lemma_ack_nack_shape_parses(
    b: Seq<u8>,
    num: u8,
    lens: Seq<usize>,
    r: Result<Frame, ProtocolError>,
)
    requires
        lens =~= seq![1usize],
        num != 50,
        parse_spec(b, num, lens, r),
        ack_nack_shape(b, num),
    ensures
        r matches Ok(f) && f.fields@.len() == 1 && f.fields@[0]@ == b.subrange(4, 5),
{
    reveal_with_fuel(sum_lens, 3);
    assert(lens.subrange(0, 0) =~= Seq::<usize>::empty());
    assert(field_sep_pos(lens, 0) == 3);
    assert(lens.subrange(0, 1) =~= lens);
    assert(field_sep_pos(lens, 1) == 5);
    assert(expected_len(lens) == 9);
    assert(seps_ok_upto(b, lens, 2)) by {
        assert forall|j: int| 0 <= j < 2 implies b[#[trigger] field_sep_pos(lens, j)]
            == SEPARATOR by {
            if j == 0 {
                assert(b[3] == SEPARATOR);
            } else {
                assert(b[5] == SEPARATOR);
            }
        }
    }
}

impl Message20 {
    /// This message's number.
    pub fn message_num(&self) -> (r: u8)
        ensures
            r == 20,
    {
        20
    }

    /// Edition of the specification this message belongs to.
    pub fn edition_st2150(&self) -> (r: Edition2150)
        ensures
            r == Edition2150::A,
    {
        Edition2150::A
    }

    /// Short label of the message.
    pub fn message_str(&self) -> (r: &'static str)
        ensures
            r@ == "Présélection"@,
    {
        "Présélection"
    }

    /// Context identifiers the request needs.
    pub fn id_infos_request(&self) -> (r: Vec<IdInfo>)
        ensures
            r@ =~= seq![IdInfo::Predetermination, IdInfo::CodeProduit],
    {
        let r = vec![IdInfo::Predetermination, IdInfo::CodeProduit];
        r
    }

    /// Context identifiers the response fills.
    pub fn id_infos_response(&self) -> (r: Vec<IdInfo>)
        ensures
            r@ =~= seq![IdInfo::Ack, IdInfo::Nack],
    {
        let r = vec![IdInfo::Ack, IdInfo::Nack];
        r
    }

    /// Are the preset and the product code set in the context?
    pub fn availability(&self, context: &Context) -> (r: Result<(), ProtocolError>)
        requires
            context.wf(),
        ensures
            r is Ok <==> context.is_set(IdInfo::Predetermination) && context.is_set(
                IdInfo::CodeProduit,
            ),
            r matches Err(e) ==> e is ContextMissing,
    {
        let ids = self.id_infos_request();
        let r = crate::messages::availability(context, &ids);
        proof {
            if context.is_set(IdInfo::Predetermination) && context.is_set(IdInfo::CodeProduit) {
                assert forall|i: int| 0 <= i < ids@.len() implies context.is_set(
                    #[trigger] ids@[i],
                ) by {
                    assert(ids@[i] == IdInfo::Predetermination || ids@[i] == IdInfo::CodeProduit);
                }
            }
        }
        r
    }

    /// Build the request: the preset on five digits and the product code as
    /// one raw byte offset by `'0'`. Succeeds exactly when both values are
    /// set in the context.
    pub fn build_request(&self, context: &Context) -> (r: Result<Frame, ProtocolError>)
        requires
            context.wf(),
        ensures
            r is Ok <==> context.is_set(IdInfo::Predetermination) && context.is_set(
                IdInfo::CodeProduit,
            ),
            r matches Ok(f) ==> f.message_num == 20 && f.fields@.len() == 2,
            context.value_of(IdInfo::Predetermination) matches Some(TValue::U32(p)) ==> (
            context.value_of(IdInfo::CodeProduit) matches Some(TValue::U8(c)) ==> (r matches Ok(f)
                && f.message_num == 20 && views_of(f.fields@) =~= seq![
                dec_fixed(p as nat, 5),
                seq![(48 + c) as u8],
            ])),
    {
        proof {
            lemma_wf_entry(*context, IdInfo::Predetermination);
            lemma_wf_entry(*context, IdInfo::CodeProduit);
        }
        let prede = match context.get_option_info_u32(IdInfo::Predetermination) {
            Some(v) => v,
            None => {
                return Err(ProtocolError::ContextMissing(crate::context::get_info_label_for(
                    IdInfo::Predetermination,
                )));
            },
        };
        let code_prod = match context.get_option_info_u8(IdInfo::CodeProduit) {
            Some(v) => v,
            None => {
                return Err(ProtocolError::ContextMissing(crate::context::get_info_label_for(
                    IdInfo::CodeProduit,
                )));
            },
        };
        let mut req = Frame::new(20);
        proof {
            assert(pow10(5) == 100000) by {
                assert(pow10(0) == 1);
                assert(pow10(1) == 10);
                assert(pow10(2) == 100);
                assert(pow10(3) == 1000);
                assert(pow10(4) == 10000);
            }
        }
        req.add_field(Field::encode_number(prede as u64, 5));
        match Field::check_binary_domain("code produit", code_prod, 0, NB_PRODUITS as u8) {
            Ok(()) => (),
            Err(e) => {
                return Err(e);
            },
        }
        req.add_field(Field::encode_binary(48 + code_prod));
        proof {
            assert(views_of(req.fields@) =~= seq![
                dec_fixed(prede as nat, 5),
                seq![(48 + code_prod) as u8],
            ]);
        }
        Ok(req)
    }

    /// One full vacation of message 20: build and send the preset request,
    /// then record whether the counterpart acknowledged.
    pub fn do_vacation<P: CommonSerialComTrait>(
        &self,
        st2150: &mut ST2150<P>,
        context: &mut Context,
    ) -> (r: Result<(), ProtocolError>)
        requires
            old(context).wf(),
        ensures
            final(context).wf(),
            r == Err::<(), ProtocolError>(ProtocolError::NoReply) ==> forall|id2: IdInfo|
                valid_id(id2) ==> #[trigger] final(context).value_of(id2) == old(context).value_of(id2),
            !(old(context).is_set(IdInfo::Predetermination) && old(context).is_set(
                IdInfo::CodeProduit,
            )) ==> (r matches Err(ProtocolError::ContextMissing(_)) && (forall|id2: IdInfo|
                valid_id(id2) ==> #[trigger] final(context).value_of(id2) == old(context).value_of(
                    id2,
                )) && final(st2150).last_req == old(st2150).last_req && final(st2150).last_rep
                == old(st2150).last_rep),
            r is Ok ==> final(context).is_set(IdInfo::Ack) && final(context).is_set(IdInfo::Nack),
            old(st2150).last_rep@.len() == 0 && final(st2150).last_rep@.len() > 0 && ack_nack_shape(
                final(st2150).last_rep@,
                20,
            ) ==> (r is Ok && ack_nack_flags_written(*final(context), final(st2150).last_rep@)),
            forall|id2: IdInfo|
                valid_id(id2) && !ack_nack_rep_id(id2) ==> #[trigger] final(context).value_of(id2)
                    == old(context).value_of(id2),
    {
        match self.availability(context) {
            Ok(()) => (),
            Err(e) => {
                return Err(e);
            },
        }
        let req = match self.build_request(context) {
            Ok(f) => f,
            Err(e) => {
                return Err(e);
            },
        };
        st2150.send_req(&req);

        let lens: Vec<usize> = vec![1];
        proof {
            assert(lens@ =~= seq![1usize]);
            reveal_with_fuel(sum_lens, 3);
            assert(expected_len(lens@) == 9);
        }
        let buffer = match st2150.wait_rep(lens.as_slice()) {
            Ok(b) => b,
            Err(e) => {
                return Err(e);
            },
        };
        let parse_result = st2150.try_from_buffer(buffer.as_slice(), 20, lens.as_slice());
        proof {
            if ack_nack_shape(buffer@, 20) {
                lemma_ack_nack_shape_parses(buffer@, 20, lens@, parse_result);
            }
        }
        let frame = match parse_result {
            Ok(f) => f,
            Err(e) => {
                return Err(e);
            },
        };

        let nack = frame.is_nack();
        let ack = frame.is_ack();
        proof {
            if ack_nack_shape(buffer@, 20) {
                assert(frame.fields@[0]@ == buffer@.subrange(4, 5));
                assert(buffer@.subrange(4, 5) =~= seq![buffer@[4]]);
                assert(nack == (buffer@[4] == crate::protocol::NACK)) by {
                    if buffer@[4] == crate::protocol::NACK {
                        assert(frame.fields@[0]@ =~= seq![crate::protocol::NACK]);
                    } else {
                        assert(frame.fields@[0]@[0] != crate::protocol::NACK);
                    }
                }
                assert(ack == (buffer@[4] == crate::protocol::ACK)) by {
                    if buffer@[4] == crate::protocol::ACK {
                        assert(frame.fields@[0]@ =~= seq![crate::protocol::ACK]);
                    } else {
                        assert(frame.fields@[0]@[0] != crate::protocol::ACK);
                    }
                }
            }
        }
        context.set_info_bool(IdInfo::Nack, nack);
        context.set_info_bool(IdInfo::Ack, ack);
        Ok(())
    }
}

} // verus!
