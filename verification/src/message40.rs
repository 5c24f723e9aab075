//! Message 40, "time synchronization": the request carries the hours-minutes
//! time; the response is a bare ACK or NACK.

use vstd::prelude::*;

use crate::context::{lemma_wf_entry, valid_id, Context, IdInfo, TValue};
use crate::field::{dec_fixed, pow10, Field};
use crate::frame::{expected_len, sum_lens, views_of, Frame};
use crate::message20::ack_nack_rep_id;
use crate::serial_com::CommonSerialComTrait;
use crate::st2150::{Edition2150, ProtocolError, ST2150};

verus! {

/// Message 40: time synchronization.
#[derive(Default)]
pub struct Message40 {}

impl Message40 {
    /// This message's number.
    pub fn message_num(&self) -> (r: u8)
        ensures
            r == 40,
    {
        40
    }

    /// Edition of the specification this message belongs to.
    pub fn edition_st2150(&self) -> (r: Edition2150)
        ensures
            r == Edition2150::A,
    {
        Edition2150::A
    }

    /// Short label of the message.
    pub fn message_str(&self) -> (r: &'static str)
        ensures
            r@ == "Synchronisation heure"@,
    {
        "Synchronisation heure"
    }

    /// Context identifiers the request needs.
    pub fn id_infos_request(&self) -> (r: Vec<IdInfo>)
        ensures
            r@ =~= seq![IdInfo::HeureHHMM],
    {
        let r = vec![IdInfo::HeureHHMM];
        r
    }

    /// Context identifiers the response fills.
    pub fn id_infos_response(&self) -> (r: Vec<IdInfo>)
        ensures
            r@ =~= seq![IdInfo::Ack, IdInfo::Nack],
    {
        let r = vec![IdInfo::Ack, IdInfo::Nack];
        r
    }

    /// Is the time set in the context?
    pub fn availability(&self, context: &Context) -> (r: Result<(), ProtocolError>)
        requires
            context.wf(),
        ensures
            r is Ok <==> context.is_set(IdInfo::HeureHHMM),
            r matches Err(e) ==> e is ContextMissing,
    {
        let ids = self.id_infos_request();
        let r = crate::messages::availability(context, &ids);
        proof {
            if crate::messages::all_ids_set(*context, ids@) {
                assert(context.is_set(ids@[0]));
            }
            if context.is_set(IdInfo::HeureHHMM) {
                assert forall|i: int| 0 <= i < ids@.len() implies context.is_set(
                    #[trigger] ids@[i],
                ) by {
                    assert(ids@[i] == IdInfo::HeureHHMM);
                }
            }
        }
        r
    }

    /// Build the request: the time on four digits.
    pub fn build_request(&self, context: &Context) -> (r: Result<Frame, ProtocolError>)
        requires
            context.wf(),
        ensures
            r is Ok <==> context.is_set(IdInfo::HeureHHMM),
            r matches Ok(f) ==> f.message_num == 40 && f.fields@.len() == 1,
            context.value_of(IdInfo::HeureHHMM) matches Some(TValue::U16(h)) ==> (r matches Ok(f)
                && views_of(f.fields@) =~= seq![dec_fixed(h as nat, 4)]),
    {
        proof {
            lemma_wf_entry(*context, IdInfo::HeureHHMM);
        }
        let heure = match context.get_option_info_u16(IdInfo::HeureHHMM) {
            Some(v) => v,
            None => {
                return Err(ProtocolError::ContextMissing(crate::context::get_info_label_for(
                    IdInfo::HeureHHMM,
                )));
            },
        };
        proof {
            assert(pow10(4) == 10000) by {
                assert(pow10(0) == 1);
                assert(pow10(1) == 10);
                assert(pow10(2) == 100);
                assert(pow10(3) == 1000);
            }
        }
        let mut req = Frame::new(40);
        req.add_field(Field::encode_number(heure as u64, 4));
        proof {
            assert(views_of(req.fields@) =~= seq![dec_fixed(heure as nat, 4)]);
        }
        Ok(req)
    }

    /// One full vacation of message 40: send the time, record whether the
    /// counterpart acknowledged.
    pub fn do_vacation<P: CommonSerialComTrait>(
        &self,
        st2150: &mut ST2150<P>,
        context: &mut Context,
    ) -> (r: Result<(), ProtocolError>)
        requires
            old(context).wf(),
        ensures
            final(context).wf(),
            r == Err::<(), ProtocolError>(ProtocolError::NoReply) ==> forall|id2: IdInfo|
                valid_id(id2) ==> #[trigger] final(context).value_of(id2) == old(context).value_of(id2),
            !old(context).is_set(IdInfo::HeureHHMM) ==> (r matches Err(ProtocolError::ContextMissing(_)) && (forall|id2: IdInfo|
                valid_id(id2) ==> #[trigger] final(context).value_of(id2) == old(context).value_of(
                    id2,
                )) && final(st2150).last_req == old(st2150).last_req && final(st2150).last_rep
                == old(st2150).last_rep),
            r is Ok ==> final(context).is_set(IdInfo::Ack) && final(context).is_set(IdInfo::Nack),
            old(st2150).last_rep@.len() == 0 && final(st2150).last_rep@.len() > 0 && crate::message20::ack_nack_shape(
                final(st2150).last_rep@,
                40,
            ) ==> (r is Ok && crate::message20::ack_nack_flags_written(*final(context), final(st2150).last_rep@)),
            forall|id2: IdInfo|
                valid_id(id2) && !ack_nack_rep_id(id2) ==> #[trigger] final(context).value_of(id2)
                    == old(context).value_of(id2),
    {
        match self.availability(context) {
            Ok(()) => (),
            Err(e) => {
                return Err(e);
            },
        }
        let req = match self.build_request(context) {
            Ok(f) => f,
            Err(e) => {
                return Err(e);
            },
        };
        st2150.send_req(&req);

        let lens: Vec<usize> = vec![1];
        proof {
            assert(lens@ =~= seq![1usize]);
            reveal_with_fuel(sum_lens, 3);
            assert(expected_len(lens@) == 9);
        }
        let buffer = match st2150.wait_rep(lens.as_slice()) {
            Ok(b) => b,
            Err(e) => {
                return Err(e);
            },
        };
        let parse_result = st2150.try_from_buffer(buffer.as_slice(), 40, lens.as_slice());
        proof {
            if crate::message20::ack_nack_shape(buffer@, 40) {
                crate::message20::lemma_ack_nack_shape_parses(buffer@, 40, lens@, parse_result);
            }
        }
        let frame = match parse_result {
            Ok(f) => f,
            Err(e) => {
                return Err(e);
            },
        };

        let nack = frame.is_nack();
        let ack = frame.is_ack();
        proof {
            if crate::message20::ack_nack_shape(buffer@, 40) {
                assert(frame.fields@[0]@ == buffer@.subrange(4, 5));
                assert(buffer@.subrange(4, 5) =~= seq![buffer@[4]]);
                assert(nack == (buffer@[4] == crate::protocol::NACK)) by {
                    if buffer@[4] == crate::protocol::NACK {
                        assert(frame.fields@[0]@ =~= seq![crate::protocol::NACK]);
                    } else {
                        assert(frame.fields@[0]@[0] != crate::protocol::NACK);
                    }
                }
                assert(ack == (buffer@[4] == crate::protocol::ACK)) by {
                    if buffer@[4] == crate::protocol::ACK {
                        assert(frame.fields@[0]@ =~= seq![crate::protocol::ACK]);
                    } else {
                        assert(frame.fields@[0]@[0] != crate::protocol::ACK);
                    }
                }
            }
        }
        context.set_info_bool(IdInfo::Nack, nack);
        context.set_info_bool(IdInfo::Ack, ack);
        Ok(())
    }
}

} // verus!
