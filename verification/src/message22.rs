//! Message 22, "TAG identification": the request carries the tag's length on
//! three digits and the tag itself; the response is a bare ACK or NACK.

use vstd::prelude::*;

use crate::ascii::trim_spaces;
use crate::context::{lemma_wf_entry, valid_id, Context, IdInfo, TValue};
use crate::field::{pow10, str_field, Field};
use crate::frame::{expected_len, sum_lens, views_of, Frame};
use crate::message20::ack_nack_rep_id;
use crate::serial_com::CommonSerialComTrait;
use crate::st2150::{Edition2150, ProtocolError, ST2150};

verus! {

/// Message 22: TAG identification.
#[derive(Default)]
pub struct Message22 {}

impl Message22 {
    /// This message's number.
    pub fn message_num(&self) -> (r: u8)
        ensures
            r == 22,
    {
        22
    }

    /// Edition of the specification this message belongs to.
    pub fn edition_st2150(&self) -> (r: Edition2150)
        ensures
            r == Edition2150::B,
    {
        Edition2150::B
    }

    /// Short label of the message.
    pub fn message_str(&self) -> (r: &'static str)
        ensures
            r@ == "Identification TAG"@,
    {
        "Identification TAG"
    }

    /// Context identifiers the request needs.
    pub fn id_infos_request(&self) -> (r: Vec<IdInfo>)
        ensures
            r@ =~= seq![IdInfo::IdentificationTag],
    {
        let r = vec![IdInfo::IdentificationTag];
        r
    }

    /// Context identifiers the response fills.
    pub fn id_infos_response(&self) -> (r: Vec<IdInfo>)
        ensures
            r@ =~= seq![IdInfo::Nack, IdInfo::Ack],
    {
        let r = vec![IdInfo::Nack, IdInfo::Ack];
        r
    }

    /// Is the tag set in the context?
    pub fn availability(&self, context: &Context) -> (r: Result<(), ProtocolError>)
        requires
            context.wf(),
        ensures
            r is Ok <==> context.is_set(IdInfo::IdentificationTag),
            r matches Err(e) ==> e is ContextMissing,
    {
        let ids = self.id_infos_request();
        let r = crate::messages::availability(context, &ids);
        proof {
            if crate::messages::all_ids_set(*context, ids@) {
                assert(context.is_set(ids@[0]));
            }
            if context.is_set(IdInfo::IdentificationTag) {
                assert forall|i: int| 0 <= i < ids@.len() implies context.is_set(
                    #[trigger] ids@[i],
                ) by {
                    assert(ids@[i] == IdInfo::IdentificationTag);
                }
            }
        }
        r
    }

    /// Build the request: the trimmed tag's length on three digits, then the
    /// trimmed tag itself (an empty field for an empty tag). Succeeds exactly
    /// when the tag is set and, once trimmed, is ASCII — the wire carries one
    /// byte per character.
    pub fn build_request(&self, context: &Context) -> (r: Result<Frame, ProtocolError>)
        requires
            context.wf(),
        ensures
            r matches Ok(f) ==> f.message_num == 22 && f.fields@.len() == 2,
            context.value_of(IdInfo::IdentificationTag) matches Some(TValue::String(s)) ==> {
                let t = trim_spaces(s@);
                &&& (r is Ok <==> vstd::utf8::is_ascii_chars(t))
                &&& vstd::utf8::is_ascii_chars(t) ==> (r matches Ok(f) && views_of(f.fields@)
                    =~= seq![
                    crate::field::dec_fixed(t.len(), 3),
                    str_field(t, t.len()),
                ])
            },
            context.value_of(IdInfo::IdentificationTag) is None ==> r matches Err(
                ProtocolError::ContextMissing(_),
            ),
    {
        proof {
            lemma_wf_entry(*context, IdInfo::IdentificationTag);
        }
        let tag = match context.get_option_info_string(IdInfo::IdentificationTag) {
            Some(s) => s,
            None => {
                return Err(ProtocolError::ContextMissing(crate::context::get_info_label_for(
                    IdInfo::IdentificationTag,
                )));
            },
        };
        let trimmed = crate::ascii::trim_str(tag.as_str());
        if !trimmed.as_str().is_ascii() {
            return Err(ProtocolError::IllegalNumberEncoding(String::from_str(
                "identification TAG non ASCII",
            )));
        }
        let len = trimmed.as_str().unicode_len();
        proof {
            lemma_trim_len(tag@);
            assert(pow10(3) == 1000) by {
                assert(pow10(0) == 1);
                assert(pow10(1) == 10);
                assert(pow10(2) == 100);
            }
        }
        let mut req = Frame::new(22);
        req.add_field(Field::encode_number(len as u64, 3));
        req.add_field(Field::encode_str(trimmed.as_str(), len));
        proof {
            assert(views_of(req.fields@) =~= seq![
                crate::field::dec_fixed(trim_spaces(tag@).len(), 3),
                str_field(trim_spaces(tag@), trim_spaces(tag@).len()),
            ]);
        }
        Ok(req)
    }

    /// One full vacation of message 22: send the tag, record whether the
    /// counterpart acknowledged.
    pub fn do_vacation<P: CommonSerialComTrait>(
        &self,
        st2150: &mut ST2150<P>,
        context: &mut Context,
    ) -> (r: Result<(), ProtocolError>)
        requires
            old(context).wf(),
        ensures
            final(context).wf(),
            r == Err::<(), ProtocolError>(ProtocolError::NoReply) ==> forall|id2: IdInfo|
                valid_id(id2) ==> #[trigger] final(context).value_of(id2) == old(context).value_of(id2),
            !old(context).is_set(IdInfo::IdentificationTag) ==> (r matches Err(ProtocolError::ContextMissing(_)) && (forall|id2: IdInfo|
                valid_id(id2) ==> #[trigger] final(context).value_of(id2) == old(context).value_of(
                    id2,
                )) && final(st2150).last_req == old(st2150).last_req && final(st2150).last_rep
                == old(st2150).last_rep),
            r is Ok ==> final(context).is_set(IdInfo::Ack) && final(context).is_set(IdInfo::Nack),
            old(st2150).last_rep@.len() == 0 && final(st2150).last_rep@.len() > 0 && crate::message20::ack_nack_shape(
                final(st2150).last_rep@,
                22,
            ) ==> (r is Ok && crate::message20::ack_nack_flags_written(*final(context), final(st2150).last_rep@)),
            forall|id2: IdInfo|
                valid_id(id2) && !ack_nack_rep_id(id2) ==> #[trigger] final(context).value_of(id2)
                    == old(context).value_of(id2),
    {
        match self.availability(context) {
            Ok(()) => (),
            Err(e) => {
                return Err(e);
            },
        }
        let req = match self.build_request(context) {
            Ok(f) => f,
            Err(e) => {
                return Err(e);
            },
        };
        st2150.send_req(&req);

        let lens: Vec<usize> = vec![1];
        proof {
            assert(lens@ =~= seq![1usize]);
            reveal_with_fuel(sum_lens, 3);
            assert(expected_len(lens@) == 9);
        }
        let buffer = match st2150.wait_rep(lens.as_slice()) {
            Ok(b) => b,
            Err(e) => {
                return Err(e);
            },
        };
        let parse_result = st2150.try_from_buffer(buffer.as_slice(), 22, lens.as_slice());
        proof {
            if crate::message20::ack_nack_shape(buffer@, 22) {
                crate::message20::lemma_ack_nack_shape_parses(buffer@, 22, lens@, parse_result);
            }
        }
        let frame = match parse_result {
            Ok(f) => f,
            Err(e) => {
                return Err(e);
            },
        };

        let nack = frame.is_nack();
        let ack = frame.is_ack();
        proof {
            if crate::message20::ack_nack_shape(buffer@, 22) {
                assert(frame.fields@[0]@ == buffer@.subrange(4, 5));
                assert(buffer@.subrange(4, 5) =~= seq![buffer@[4]]);
                assert(nack == (buffer@[4] == crate::protocol::NACK)) by {
                    if buffer@[4] == crate::protocol::NACK {
                        assert(frame.fields@[0]@ =~= seq![crate::protocol::NACK]);
                    } else {
                        assert(frame.fields@[0]@[0] != crate::protocol::NACK);
                    }
                }
                assert(ack == (buffer@[4] == crate::protocol::ACK)) by {
                    if buffer@[4] == crate::protocol::ACK {
                        assert(frame.fields@[0]@ =~= seq![crate::protocol::ACK]);
                    } else {
                        assert(frame.fields@[0]@[0] != crate::protocol::ACK);
                    }
                }
            }
        }
        context.set_info_bool(IdInfo::Nack, nack);
        context.set_info_bool(IdInfo::Ack, ack);
        Ok(())
    }
}

/// Trimming never lengthens a text.
pub proof fn lemma_trim_len(s: Seq<char>)
    ensures
        trim_spaces(s).len() <= s.len(),
    decreases s.len(),
{
    lemma_trim_end_len(s);
    lemma_trim_start_len(crate::ascii::trim_end_spaces(s));
}

/// Trimming the end never lengthens a text.
pub proof fn lemma_trim_end_len(s: Seq<char>)
    ensures
        crate::ascii::trim_end_spaces(s).len() <= s.len(),
    decreases s.len(),
{
    if s.len() > 0 && s.last() == ' ' {
        lemma_trim_end_len(s.drop_last());
    }
}

/// Trimming the start never lengthens a text.
pub proof fn lemma_trim_start_len(s: Seq<char>)
    ensures
        crate::ascii::trim_start_spaces(s).len() <= s.len(),
    decreases s.len(),
{
    if s.len() > 0 && s.first() == ' ' {
        lemma_trim_start_len(s.drop_first());
    }
}

} // verus!
