//! Message 33, "product table (short)": no request field; the response
//! carries eight five-character product labels.

use vstd::prelude::*;

use vstd::utf8::{decode_utf8, valid_utf8};
use crate::context::{clip, valid_id, Context, IdInfo, TValue};
use crate::frame::{expected_len, sum_lens, views_of, Frame};
use crate::serial_com::CommonSerialComTrait;
use crate::st2150::{Edition2150, ProtocolError, ST2150};

verus! {

/// Message 33: product table, short form.
#[derive(Default)]
pub struct Message33 {}

/// The eight response fields of message 33 are ASCII texts.
pub open spec fn message33_rep_ok(fs: Seq<Seq<u8>>) -> bool {
    fs.len() == 8 && forall|k: int| 0 <= k < 8 ==> valid_utf8(#[trigger] fs[k])
}

/// The identifiers message 33's response writes.
pub open spec fn message33_rep_id(id: IdInfo) -> bool {
    id matches IdInfo::LibelleTableProduits(n) && 1 <= n <= 8
}

impl Message33 {
    /// This message's number.
    pub fn message_num(&self) -> (r: u8)
        ensures
            r == 33,
    {
        33
    }

    /// Edition of the specification this message belongs to.
    pub fn edition_st2150(&self) -> (r: Edition2150)
        ensures
            r == Edition2150::A,
    {
        Edition2150::A
    }

    /// Short label of the message.
    pub fn message_str(&self) -> (r: &'static str)
        ensures
            r@ == "Tables des produits (court)"@,
    {
        "Tables des produits (court)"
    }

    /// Context identifiers the request needs.
    pub fn id_infos_request(&self) -> (r: Vec<IdInfo>)
        ensures
            r@.len() == 0,
    {
        Vec::new()
    }

    /// Context identifiers the response fills.
    pub fn id_infos_response(&self) -> (r: Vec<IdInfo>)
        ensures
            r@.len() == 8,
            forall|k: int| 0 <= k < 8 ==> r@[k] == IdInfo::LibelleTableProduits((k + 1) as usize),
    {
        let r = vec![
            IdInfo::LibelleTableProduits(1),
            IdInfo::LibelleTableProduits(2),
            IdInfo::LibelleTableProduits(3),
            IdInfo::LibelleTableProduits(4),
            IdInfo::LibelleTableProduits(5),
            IdInfo::LibelleTableProduits(6),
            IdInfo::LibelleTableProduits(7),
            IdInfo::LibelleTableProduits(8),
        ];
        r
    }

    /// All the request's identifiers are set (there are none).
    pub fn availability(&self, context: &Context) -> (r: Result<(), ProtocolError>)
        requires
            context.wf(),
        ensures
            r is Ok,
    {
        let ids = self.id_infos_request();
        crate::messages::availability(context, &ids)
    }

    /// Write a well-formed response into the context: one label per product.
    pub fn update_context_from_rep(&self, frame: &Frame, context: &mut Context) -> (r: Result<
        (),
        ProtocolError,
    >)
        requires
            old(context).wf(),
            frame.fields@.len() == 8,
        ensures
            final(context).wf(),
            r is Ok <==> message33_rep_ok(views_of(frame.fields@)),
            r matches Err(e) ==> !(e is NoReply),
            r is Ok ==> (forall|k: int|
                1 <= k <= 8 ==> (#[trigger] final(context).value_of(
                    IdInfo::LibelleTableProduits(k as usize),
                ) matches Some(TValue::String(t)) && t@ == clip(
                    decode_utf8(views_of(frame.fields@)[k - 1]),
                    10,
                ))),
            forall|id2: IdInfo|
                valid_id(id2) && !message33_rep_id(id2) ==> #[trigger] final(context).value_of(id2)
                    == old(context).value_of(id2),
    {
        let mut indice_champ: usize = 0;
        while indice_champ < 8
            invariant
                context.wf(),
                frame.fields@.len() == 8,
                0 <= indice_champ <= 8,
                forall|k: int|
                    0 <= k < indice_champ ==> valid_utf8(#[trigger] views_of(frame.fields@)[k]),
                forall|k: int|
                    1 <= k <= indice_champ ==> (#[trigger] context.value_of(
                        IdInfo::LibelleTableProduits(k as usize),
                    ) matches Some(TValue::String(t)) && t@ == clip(
                        decode_utf8(views_of(frame.fields@)[k - 1]),
                        10,
                    )),
                forall|id2: IdInfo|
                    valid_id(id2) && !(id2 matches IdInfo::LibelleTableProduits(n) && 1 <= n
                        <= indice_champ) ==> #[trigger] context.value_of(id2) == old(context).value_of(id2),
            decreases 8 - indice_champ,
        {
            proof {
                assert(views_of(frame.fields@)[indice_champ as int] == frame.fields@[indice_champ as int]@);
            }
            match frame.fields[indice_champ].decode_str() {
                Ok(s) => {
                    context.set_info_string(
                        IdInfo::LibelleTableProduits(indice_champ + 1),
                        s.as_str(),
                    );
                },
                Err(e) => {
                    return Err(e);
                },
            }
            indice_champ = indice_champ + 1;
        }
        Ok(())
    }

    /// One full vacation of message 33.
    pub fn do_vacation<P: CommonSerialComTrait>(
        &self,
        st2150: &mut ST2150<P>,
        context: &mut Context,
    ) -> (r: Result<(), ProtocolError>)
        requires
            old(context).wf(),
        ensures
            final(context).wf(),
            r == Err::<(), ProtocolError>(ProtocolError::NoReply) ==> forall|id2: IdInfo|
                valid_id(id2) ==> #[trigger] final(context).value_of(id2) == old(context).value_of(id2),
            r is Ok ==> forall|k: int|
                1 <= k <= 8 ==> #[trigger] final(context).is_set(
                    IdInfo::LibelleTableProduits(k as usize),
                ),
            forall|id2: IdInfo|
                valid_id(id2) && !message33_rep_id(id2) ==> #[trigger] final(context).value_of(id2)
                    == old(context).value_of(id2),
    {
        let req = Frame::new(33);
        st2150.send_req(&req);

        let lens: Vec<usize> = vec![5, 5, 5, 5, 5, 5, 5, 5];
        proof {
            assert(lens@ =~= seq![5usize, 5, 5, 5, 5, 5, 5, 5]);
            reveal_with_fuel(sum_lens, 10);
            assert(expected_len(lens@) == 55);
        }
        let buffer = match st2150.wait_rep(lens.as_slice()) {
            Ok(b) => b,
            Err(e) => {
                return Err(e);
            },
        };
        let frame = match st2150.try_from_buffer(buffer.as_slice(), 33, lens.as_slice()) {
            Ok(f) => f,
            Err(e) => {
                return Err(e);
            },
        };
        self.update_context_from_rep(&frame, context)
    }
}

} // verus!
