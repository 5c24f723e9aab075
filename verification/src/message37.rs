//! Message 37, "loading plan update": the request carries a product code and
//! a quantity for each of the nine compartments; the response is a bare ACK
//! or NACK.

use vstd::prelude::*;

use crate::context::{lemma_wf_entry, valid_id, Context, IdInfo};
use crate::field::{pow10, Field};
use crate::frame::{expected_len, sum_lens, views_of, Frame};
use crate::message20::ack_nack_rep_id;
use crate::serial_com::CommonSerialComTrait;
use crate::st2150::{Edition2150, ProtocolError, ST2150};

verus! {

/// Message 37: loading plan update.
#[derive(Default)]
pub struct Message37 {}

/// The wire bytes of one compartment's product code: the code as one raw
/// byte offset by `'0'`.
pub open spec fn compart_code_bytes(c: Context, k: int) -> Seq<u8> {
    match c.value_of(IdInfo::CodeProduitCompartiment(k as usize)) {
        Some(crate::context::TValue::U8(v)) => seq![(48 + v) as u8],
        _ => Seq::empty(),
    }
}

/// The wire bytes of one compartment's quantity: five zero-padded digits.
pub open spec fn compart_quantity_bytes(c: Context, k: int) -> Seq<u8> {
    match c.value_of(IdInfo::QuantiteCompartiment(k as usize)) {
        Some(crate::context::TValue::U32(v)) => crate::field::dec_fixed(v as nat, 5),
        _ => Seq::empty(),
    }
}

/// The request's code and quantity are set for every compartment.
pub open spec fn message37_request_ready(c: Context) -> bool {
    forall|k: int|
        1 <= k <= 9 ==> #[trigger] c.is_set(IdInfo::CodeProduitCompartiment(k as usize))
            && c.is_set(IdInfo::QuantiteCompartiment(k as usize))
}

impl Message37 {
    /// This message's number.
    pub fn message_num(&self) -> (r: u8)
        ensures
            r == 37,
    {
        37
    }

    /// Edition of the specification this message belongs to.
    pub fn edition_st2150(&self) -> (r: Edition2150)
        ensures
            r == Edition2150::C,
    {
        Edition2150::C
    }

    /// Short label of the message.
    pub fn message_str(&self) -> (r: &'static str)
        ensures
            r@ == "Mise à jour du plan"@,
    {
        "Mise à jour du plan"
    }

    /// Context identifiers the request needs.
    pub fn id_infos_request(&self) -> (r: Vec<IdInfo>)
        ensures
            r@.len() == 18,
            forall|k: int|
                #![trigger r@[2 * k - 2]]
                1 <= k <= 9 ==> r@[2 * k - 2] == IdInfo::CodeProduitCompartiment(k as usize)
                    && r@[2 * k - 1] == IdInfo::QuantiteCompartiment(k as usize),
    {
        let mut r: Vec<IdInfo> = Vec::new();
        let mut n: usize = 1;
        while n <= 9
            invariant
                1 <= n <= 10,
                r@.len() == 2 * n - 2,
                forall|k: int|
                    #![trigger r@[2 * k - 2]]
                    1 <= k < n ==> r@[2 * k - 2] == IdInfo::CodeProduitCompartiment(k as usize)
                        && r@[2 * k - 1] == IdInfo::QuantiteCompartiment(k as usize),
            decreases 10 - n,
        {
            r.push(IdInfo::CodeProduitCompartiment(n));
            r.push(IdInfo::QuantiteCompartiment(n));
            proof {
                assert(r@[2 * n - 2] == IdInfo::CodeProduitCompartiment(n as usize));
                assert(r@[2 * n - 1] == IdInfo::QuantiteCompartiment(n as usize));
            }
            n = n + 1;
        }
        r
    }

    /// Context identifiers the response fills.
    pub fn id_infos_response(&self) -> (r: Vec<IdInfo>)
        ensures
            r@ =~= seq![IdInfo::Ack, IdInfo::Nack],
    {
        let r = vec![IdInfo::Ack, IdInfo::Nack];
        r
    }

    /// Are all eighteen compartment values set?
    pub fn availability(&self, context: &Context) -> (r: Result<(), ProtocolError>)
        requires
            context.wf(),
        ensures
            r is Ok <==> message37_request_ready(*context),
            r matches Err(e) ==> e is ContextMissing,
    {
        let ids = self.id_infos_request();
        proof {
            assert forall|i: int| 0 <= i < ids@.len() implies valid_id(#[trigger] ids@[i]) by {
                vstd::arithmetic::div_mod::lemma_fundamental_div_mod(i, 2);
                let k = i / 2 + 1;
                if i % 2 == 0 {
                    assert(i == 2 * k - 2);
                    assert(ids@[2 * k - 2] == IdInfo::CodeProduitCompartiment(k as usize));
                } else {
                    assert(i == 2 * k - 1);
                    assert(ids@[2 * k - 2] == IdInfo::CodeProduitCompartiment(k as usize));
                    assert(ids@[2 * k - 1] == IdInfo::QuantiteCompartiment(k as usize));
                }
            }
        }
        let r = crate::messages::availability(context, &ids);
        proof {
            if crate::messages::all_ids_set(*context, ids@) {
                assert forall|k: int|
                    1 <= k <= 9 implies #[trigger] context.is_set(
                    IdInfo::CodeProduitCompartiment(k as usize),
                ) && context.is_set(IdInfo::QuantiteCompartiment(k as usize)) by {
                    assert(context.is_set(ids@[2 * k - 2]));
                    assert(context.is_set(ids@[2 * k - 1]));
                }
            }
            if message37_request_ready(*context) {
                assert forall|i: int| 0 <= i < ids@.len() implies context.is_set(
                    #[trigger] ids@[i],
                ) by {
                    let k = i / 2 + 1;
                    vstd::arithmetic::div_mod::lemma_fundamental_div_mod(i, 2);
                    assert(1 <= k <= 9);
                    if i % 2 == 0 {
                        assert(i == 2 * k - 2);
                        assert(ids@[2 * k - 2] == IdInfo::CodeProduitCompartiment(k as usize));
                    } else {
                        assert(i == 2 * k - 1);
                        assert(ids@[2 * k - 2] == IdInfo::CodeProduitCompartiment(k as usize));
                        assert(ids@[2 * k - 1] == IdInfo::QuantiteCompartiment(k as usize));
                    }
                    assert(context.is_set(IdInfo::CodeProduitCompartiment(k as usize)));
                    assert(context.is_set(IdInfo::QuantiteCompartiment(k as usize)));
                }
            }
        }
        r
    }

    /// Build the request: for each compartment, the product code as one raw
    /// byte offset by `'0'` and the quantity on five digits. Succeeds
    /// exactly when every value is set in the context.
    pub fn build_request(&self, context: &Context) -> (r: Result<Frame, ProtocolError>)
        requires
            context.wf(),
        ensures
            r is Ok <==> message37_request_ready(*context),
            r matches Ok(f) ==> f.message_num == 37 && f.fields@.len() == 18,
            r matches Ok(f) ==> (forall|k: int|
                #![trigger f.fields@[2 * k - 2]]
                1 <= k <= 9 ==> f.fields@[2 * k - 2]@ == compart_code_bytes(*context, k)
                    && f.fields@[2 * k - 1]@ == compart_quantity_bytes(*context, k)),
    {
        let mut req = Frame::new(37);
        let mut compart_num: usize = 1;
        while compart_num <= 9
            invariant
                context.wf(),
                1 <= compart_num <= 10,
                req.message_num == 37,
                req.fields@.len() == 2 * compart_num - 2,
                forall|k: int|
                    1 <= k < compart_num ==> #[trigger] context.is_set(
                        IdInfo::CodeProduitCompartiment(k as usize),
                    ) && context.is_set(IdInfo::QuantiteCompartiment(k as usize)),
                forall|k: int|
                    #![trigger req.fields@[2 * k - 2]]
                    1 <= k < compart_num ==> req.fields@[2 * k - 2]@ == compart_code_bytes(
                        *context,
                        k,
                    ) && req.fields@[2 * k - 1]@ == compart_quantity_bytes(*context, k),
            decreases 10 - compart_num,
        {
            proof {
                lemma_wf_entry(*context, IdInfo::CodeProduitCompartiment(compart_num as usize));
                lemma_wf_entry(*context, IdInfo::QuantiteCompartiment(compart_num as usize));
                assert(pow10(5) == 100000) by {
                    assert(pow10(0) == 1);
                    assert(pow10(1) == 10);
                    assert(pow10(2) == 100);
                    assert(pow10(3) == 1000);
                    assert(pow10(4) == 10000);
                }
            }
            let code_produit = match context.get_option_info_u8(
                IdInfo::CodeProduitCompartiment(compart_num),
            ) {
                Some(v) => v,
                None => {
                    proof {
                        assert(!context.is_set(IdInfo::CodeProduitCompartiment(
                            compart_num as usize,
                        )));
                    }
                    return Err(ProtocolError::ContextMissing(crate::context::get_info_label_for(
                        IdInfo::CodeProduitCompartiment(compart_num),
                    )));
                },
            };
            let ghost fields_before = req.fields@;
            req.add_field(Field::encode_binary(48 + code_produit));
            let quantite = match context.get_option_info_u32(
                IdInfo::QuantiteCompartiment(compart_num),
            ) {
                Some(v) => v,
                None => {
                    proof {
                        assert(!context.is_set(IdInfo::QuantiteCompartiment(
                            compart_num as usize,
                        )));
                        if message37_request_ready(*context) {
                            assert(context.is_set(IdInfo::CodeProduitCompartiment(
                                compart_num as usize,
                            )));
                            assert(false);
                        }
                    }
                    return Err(ProtocolError::ContextMissing(crate::context::get_info_label_for(
                        IdInfo::QuantiteCompartiment(compart_num),
                    )));
                },
            };
            req.add_field(Field::encode_number(quantite as u64, 5));
            proof {
                assert(context.value_of(IdInfo::CodeProduitCompartiment(compart_num as usize))
                    == Some(crate::context::TValue::U8(code_produit)));
                assert(context.value_of(IdInfo::QuantiteCompartiment(compart_num as usize))
                    == Some(crate::context::TValue::U32(quantite)));
                assert(req.fields@[2 * compart_num - 2]@ =~= seq![(48 + code_produit) as u8]);
                assert(req.fields@[2 * compart_num - 2]@ == compart_code_bytes(
                    *context,
                    compart_num as int,
                ));
                assert(req.fields@[2 * compart_num - 1]@ == compart_quantity_bytes(
                    *context,
                    compart_num as int,
                ));
                assert forall|k: int| 1 <= k < compart_num implies #[trigger] req.fields@[2 * k
                    - 2]@ == compart_code_bytes(*context, k) && req.fields@[2 * k - 1]@
                    == compart_quantity_bytes(*context, k) by {
                    assert(req.fields@[2 * k - 2] == fields_before[2 * k - 2]);
                    assert(req.fields@[2 * k - 1] == fields_before[2 * k - 1]);
                }
            }
            compart_num = compart_num + 1;
        }
        Ok(req)
    }

    /// One full vacation of message 37: send the loading plan, record
    /// whether the counterpart acknowledged.
    pub fn do_vacation<P: CommonSerialComTrait>(
        &self,
        st2150: &mut ST2150<P>,
        context: &mut Context,
    ) -> (r: Result<(), ProtocolError>)
        requires
            old(context).wf(),
        ensures
            final(context).wf(),
            r == Err::<(), ProtocolError>(ProtocolError::NoReply) ==> forall|id2: IdInfo|
                valid_id(id2) ==> #[trigger] final(context).value_of(id2) == old(context).value_of(id2),
            !message37_request_ready(*old(context)) ==> (r matches Err(ProtocolError::ContextMissing(_)) && (forall|id2: IdInfo|
                valid_id(id2) ==> #[trigger] final(context).value_of(id2) == old(context).value_of(
                    id2,
                )) && final(st2150).last_req == old(st2150).last_req && final(st2150).last_rep
                == old(st2150).last_rep),
            r is Ok ==> final(context).is_set(IdInfo::Ack) && final(context).is_set(IdInfo::Nack),
            old(st2150).last_rep@.len() == 0 && final(st2150).last_rep@.len() > 0 && crate::message20::ack_nack_shape(
                final(st2150).last_rep@,
                37,
            ) ==> (r is Ok && crate::message20::ack_nack_flags_written(*final(context), final(st2150).last_rep@)),
            forall|id2: IdInfo|
                valid_id(id2) && !ack_nack_rep_id(id2) ==> #[trigger] final(context).value_of(id2)
                    == old(context).value_of(id2),
    {
        match self.availability(context) {
            Ok(()) => (),
            Err(e) => {
                return Err(e);
            },
        }
        let req = match self.build_request(context) {
            Ok(f) => f,
            Err(e) => {
                return Err(e);
            },
        };
        st2150.send_req(&req);

        let lens: Vec<usize> = vec![1];
        proof {
            assert(lens@ =~= seq![1usize]);
            reveal_with_fuel(sum_lens, 3);
            assert(expected_len(lens@) == 9);
        }
        let buffer = match st2150.wait_rep(lens.as_slice()) {
            Ok(b) => b,
            Err(e) => {
                return Err(e);
            },
        };
        let parse_result = st2150.try_from_buffer(buffer.as_slice(), 37, lens.as_slice());
        proof {
            if crate::message20::ack_nack_shape(buffer@, 37) {
                crate::message20::lemma_ack_nack_shape_parses(buffer@, 37, lens@, parse_result);
            }
        }
        let frame = match parse_result {
            Ok(f) => f,
            Err(e) => {
                return Err(e);
            },
        };

        let nack = frame.is_nack();
        let ack = frame.is_ack();
        proof {
            if crate::message20::ack_nack_shape(buffer@, 37) {
                assert(frame.fields@[0]@ == buffer@.subrange(4, 5));
                assert(buffer@.subrange(4, 5) =~= seq![buffer@[4]]);
                assert(nack == (buffer@[4] == crate::protocol::NACK)) by {
                    if buffer@[4] == crate::protocol::NACK {
                        assert(frame.fields@[0]@ =~= seq![crate::protocol::NACK]);
                    } else {
                        assert(frame.fields@[0]@[0] != crate::protocol::NACK);
                    }
                }
                assert(ack == (buffer@[4] == crate::protocol::ACK)) by {
                    if buffer@[4] == crate::protocol::ACK {
                        assert(frame.fields@[0]@ =~= seq![crate::protocol::ACK]);
                    } else {
                        assert(frame.fields@[0]@[0] != crate::protocol::ACK);
                    }
                }
            }
        }
        context.set_info_bool(IdInfo::Nack, nack);
        context.set_info_bool(IdInfo::Ack, ack);
        Ok(())
    }
}

} // verus!
