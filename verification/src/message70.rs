//! Message 70, a product movement: the request is built from the shared
//! product-movement catalog; the response carries an ACK or NACK and a
//! movement error code.

use vstd::prelude::*;

use crate::context::{valid_id, Context, IdInfo};
use crate::frame::{expected_len, sum_lens, Frame};
use crate::helper_messages60_79 as helper;
use crate::serial_com::CommonSerialComTrait;
use crate::st2150::{Edition2150, ProtocolError, ST2150};

verus! {

/// Message 70: Prédétermination gravitaire.
#[derive(Default)]
pub struct Message70;

impl Message70 {
    /// This message's number.
    pub fn message_num(&self) -> (r: u8)
        ensures
            r == 70,
    {
        70
    }

    /// Edition of the specification this message belongs to.
    pub fn edition_st2150(&self) -> (r: Edition2150)
        ensures
            r == Edition2150::C,
    {
        helper::edition_st2150(70)
    }

    /// Short label of the message.
    pub fn message_str(&self) -> (r: &'static str)
        ensures
            r@ == helper::mouvement_message_str(70),
    {
        helper::message_str(70)
    }

    /// Context identifiers the request needs.
    pub fn id_infos_request(&self) -> (r: Vec<IdInfo>)
        ensures
            r@ == helper::mouvement_request_ids(70),
    {
        helper::id_infos_request(70)
    }

    /// Context identifiers the response fills.
    pub fn id_infos_response(&self) -> (r: Vec<IdInfo>)
        ensures
            r@ =~= seq![IdInfo::Ack, IdInfo::Nack, IdInfo::CodeErreurMouvementProduit],
    {
        helper::id_infos_response(70)
    }

    /// Are all the request's identifiers set?
    pub fn availability(&self, context: &Context) -> (r: Result<(), ProtocolError>)
        requires
            context.wf(),
        ensures
            r is Ok <==> crate::messages::all_ids_set(
                *context,
                helper::mouvement_request_ids(70),
            ),
            r matches Err(e) ==> e is ContextMissing,
    {
        let ids = helper::id_infos_request(70);
        crate::messages::availability(context, &ids)
    }

    /// One full vacation of message 70: build and send the movement
    /// request, then record the acknowledge flags and the movement error
    /// code.
    pub fn do_vacation<P: CommonSerialComTrait>(
        &self,
        st2150: &mut ST2150<P>,
        context: &mut Context,
    ) -> (r: Result<(), ProtocolError>)
        requires
            old(context).wf(),
        ensures
            final(context).wf(),
            r == Err::<(), ProtocolError>(ProtocolError::NoReply) ==> forall|id2: IdInfo|
                valid_id(id2) ==> #[trigger] final(context).value_of(id2) == old(context).value_of(id2),
            !crate::messages::all_ids_set(
                *old(context),
                helper::mouvement_request_ids(70),
            ) ==> (r matches Err(ProtocolError::ContextMissing(_)) && (forall|id2: IdInfo|
                valid_id(id2) ==> #[trigger] final(context).value_of(id2) == old(context).value_of(
                    id2,
                )) && final(st2150).last_req == old(st2150).last_req && final(st2150).last_rep
                == old(st2150).last_rep),
            r is Ok ==> final(context).is_set(IdInfo::Ack) && final(context).is_set(IdInfo::Nack)
                && final(context).is_set(IdInfo::CodeErreurMouvementProduit),
            forall|id2: IdInfo|
                valid_id(id2) && !helper::mouvement_rep_id(id2) ==> #[trigger] final(context).value_of(id2) == old(context).value_of(id2),
    {
        let req = match helper::create_frame_request(70, context) {
            Ok(f) => f,
            Err(e) => {
                return Err(e);
            },
        };
        st2150.send_req(&req);

        let lens = helper::rep_len_fields(70);
        proof {
            reveal_with_fuel(sum_lens, 4);
            assert(expected_len(lens@) == 12);
        }
        let buffer = match st2150.wait_rep(lens.as_slice()) {
            Ok(b) => b,
            Err(e) => {
                return Err(e);
            },
        };
        let frame = match st2150.try_from_buffer(buffer.as_slice(), 70, lens.as_slice()) {
            Ok(f) => f,
            Err(e) => {
                return Err(e);
            },
        };
        helper::update_context_from_rep(70, context, &frame)
    }
}

} // verus!
