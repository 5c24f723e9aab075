//! Message 31, "measurement count for a day": the request carries the day
//! number; the response carries how many measurements that day holds.

use vstd::prelude::*;

use crate::context::{lemma_wf_entry, valid_id, Context, IdInfo, TValue};
use crate::field::{all_digits, dec_fixed, dec_value, pow10, Field};
use crate::frame::{expected_len, sum_lens, views_of, Frame};
use crate::serial_com::CommonSerialComTrait;
use crate::st2150::{Edition2150, ProtocolError, ST2150};

verus! {

/// Message 31: measurement count for a day.
#[derive(Default)]
pub struct Message31 {}

/// The single response field of message 31 is a decimal run fitting `u16`.
pub open spec fn message31_rep_ok(fs: Seq<Seq<u8>>) -> bool {
    fs.len() == 1 && all_digits(fs[0]) && dec_value(fs[0]) <= u16::MAX
}

impl Message31 {
    /// This message's number.
    pub fn message_num(&self) -> (r: u8)
        ensures
            r == 31,
    {
        31
    }

    /// Edition of the specification this message belongs to.
    pub fn edition_st2150(&self) -> (r: Edition2150)
        ensures
            r == Edition2150::A,
    {
        Edition2150::A
    }

    /// Short label of the message.
    pub fn message_str(&self) -> (r: &'static str)
        ensures
            r@ == "Nb mesurages pour un quantième"@,
    {
        "Nb mesurages pour un quantième"
    }

    /// Context identifiers the request needs.
    pub fn id_infos_request(&self) -> (r: Vec<IdInfo>)
        ensures
            r@ =~= seq![IdInfo::Quantieme],
    {
        let r = vec![IdInfo::Quantieme];
        r
    }

    /// Context identifiers the response fills.
    pub fn id_infos_response(&self) -> (r: Vec<IdInfo>)
        ensures
            r@ =~= seq![IdInfo::NbMesuragesQuantieme],
    {
        let r = vec![IdInfo::NbMesuragesQuantieme];
        r
    }

    /// Is the day number set in the context?
    pub fn availability(&self, context: &Context) -> (r: Result<(), ProtocolError>)
        requires
            context.wf(),
        ensures
            r is Ok <==> context.is_set(IdInfo::Quantieme),
            r matches Err(e) ==> e is ContextMissing,
    {
        let ids = self.id_infos_request();
        let r = crate::messages::availability(context, &ids);
        proof {
            if crate::messages::all_ids_set(*context, ids@) {
                assert(context.is_set(ids@[0]));
            }
            if context.is_set(IdInfo::Quantieme) {
                assert forall|i: int| 0 <= i < ids@.len() implies context.is_set(
                    #[trigger] ids@[i],
                ) by {
                    assert(ids@[i] == IdInfo::Quantieme);
                }
            }
        }
        r
    }

    /// Build the request: the day number on three digits. Succeeds exactly
    /// when it is set in the context.
    pub fn build_request(&self, context: &Context) -> (r: Result<Frame, ProtocolError>)
        requires
            context.wf(),
        ensures
            r is Ok <==> context.is_set(IdInfo::Quantieme),
            r matches Ok(f) ==> f.message_num == 31 && f.fields@.len() == 1,
            context.value_of(IdInfo::Quantieme) matches Some(TValue::U16(q)) ==> (r matches Ok(f)
                && views_of(f.fields@) =~= seq![dec_fixed(q as nat, 3)]),
    {
        proof {
            lemma_wf_entry(*context, IdInfo::Quantieme);
        }
        let quantieme = match context.get_option_info_u16(IdInfo::Quantieme) {
            Some(v) => v,
            None => {
                return Err(ProtocolError::ContextMissing(crate::context::get_info_label_for(
                    IdInfo::Quantieme,
                )));
            },
        };
        proof {
            assert(pow10(3) == 1000) by {
                assert(pow10(0) == 1);
                assert(pow10(1) == 10);
                assert(pow10(2) == 100);
            }
        }
        let mut req = Frame::new(31);
        req.add_field(Field::encode_number(quantieme as u64, 3));
        proof {
            assert(views_of(req.fields@) =~= seq![dec_fixed(quantieme as nat, 3)]);
        }
        Ok(req)
    }

    /// One full vacation of message 31.
    pub fn do_vacation<P: CommonSerialComTrait>(
        &self,
        st2150: &mut ST2150<P>,
        context: &mut Context,
    ) -> (r: Result<(), ProtocolError>)
        requires
            old(context).wf(),
        ensures
            final(context).wf(),
            r == Err::<(), ProtocolError>(ProtocolError::NoReply) ==> forall|id2: IdInfo|
                valid_id(id2) ==> #[trigger] final(context).value_of(id2) == old(context).value_of(id2),
            !old(context).is_set(IdInfo::Quantieme) ==> (r matches Err(ProtocolError::ContextMissing(_)) && (forall|id2: IdInfo|
                valid_id(id2) ==> #[trigger] final(context).value_of(id2) == old(context).value_of(
                    id2,
                )) && final(st2150).last_req == old(st2150).last_req && final(st2150).last_rep
                == old(st2150).last_rep),
            r is Ok ==> final(context).is_set(IdInfo::NbMesuragesQuantieme),
            forall|id2: IdInfo|
                valid_id(id2) && id2 != IdInfo::NbMesuragesQuantieme ==> #[trigger] final(context).value_of(id2) == old(context).value_of(id2),
    {
        match self.availability(context) {
            Ok(()) => (),
            Err(e) => {
                return Err(e);
            },
        }
        let req = match self.build_request(context) {
            Ok(f) => f,
            Err(e) => {
                return Err(e);
            },
        };
        st2150.send_req(&req);

        let lens: Vec<usize> = vec![3];
        proof {
            assert(lens@ =~= seq![3usize]);
            reveal_with_fuel(sum_lens, 3);
            assert(expected_len(lens@) == 11);
        }
        let buffer = match st2150.wait_rep(lens.as_slice()) {
            Ok(b) => b,
            Err(e) => {
                return Err(e);
            },
        };
        let frame = match st2150.try_from_buffer(buffer.as_slice(), 31, lens.as_slice()) {
            Ok(f) => f,
            Err(e) => {
                return Err(e);
            },
        };

        // the single field: the measurement count
        match frame.fields[0].decode_number_u16() {
            Ok(v) => {
                context.set_info_u16(IdInfo::NbMesuragesQuantieme, v);
                Ok(())
            },
            Err(e) => Err(e),
        }
    }
}

} // verus!
