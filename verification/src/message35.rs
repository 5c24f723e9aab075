//! Message 35, "product table (long)": no request field; the response
//! carries sixteen ten-character product labels.

use vstd::prelude::*;

use vstd::utf8::{decode_utf8, valid_utf8};
use crate::context::{clip, valid_id, Context, IdInfo, TValue};
use crate::frame::{expected_len, sum_lens, views_of, Frame};
use crate::serial_com::CommonSerialComTrait;
use crate::st2150::{Edition2150, ProtocolError, ST2150};

verus! {

/// Message 35: product table, long form.
#[derive(Default)]
pub struct Message35 {}

/// The sixteen response fields of message 35 are ASCII texts.
pub open spec fn message35_rep_ok(fs: Seq<Seq<u8>>) -> bool {
    fs.len() == 16 && forall|k: int| 0 <= k < 16 ==> valid_utf8(#[trigger] fs[k])
}

/// The identifiers message 35's response writes.
pub open spec fn message35_rep_id(id: IdInfo) -> bool {
    id matches IdInfo::LibelleTableProduits(n) && 1 <= n <= 16
}

impl Message35 {
    /// This message's number.
    pub fn message_num(&self) -> (r: u8)
        ensures
            r == 35,
    {
        35
    }

    /// Edition of the specification this message belongs to.
    pub fn edition_st2150(&self) -> (r: Edition2150)
        ensures
            r == Edition2150::B,
    {
        Edition2150::B
    }

    /// Short label of the message.
    pub fn message_str(&self) -> (r: &'static str)
        ensures
            r@ == "Tables des produits (long)"@,
    {
        "Tables des produits (long)"
    }

    /// Context identifiers the request needs.
    pub fn id_infos_request(&self) -> (r: Vec<IdInfo>)
        ensures
            r@.len() == 0,
    {
        Vec::new()
    }

    /// Context identifiers the response fills.
    pub fn id_infos_response(&self) -> (r: Vec<IdInfo>)
        ensures
            r@.len() == 16,
            forall|k: int| 0 <= k < 16 ==> r@[k] == IdInfo::LibelleTableProduits((k + 1) as usize),
    {
        let mut r: Vec<IdInfo> = Vec::new();
        let mut n: usize = 1;
        while n <= 16
            invariant
                1 <= n <= 17,
                r@.len() == n - 1,
                forall|k: int| 0 <= k < n - 1 ==> r@[k] == IdInfo::LibelleTableProduits((k + 1) as usize),
            decreases 17 - n,
        {
            r.push(IdInfo::LibelleTableProduits(n));
            n = n + 1;
        }
        r
    }

    /// All the request's identifiers are set (there are none).
    pub fn availability(&self, context: &Context) -> (r: Result<(), ProtocolError>)
        requires
            context.wf(),
        ensures
            r is Ok,
    {
        let ids = self.id_infos_request();
        crate::messages::availability(context, &ids)
    }

    /// Write a well-formed response into the context: one label per product.
    pub fn update_context_from_rep(&self, frame: &Frame, context: &mut Context) -> (r: Result<
        (),
        ProtocolError,
    >)
        requires
            old(context).wf(),
            frame.fields@.len() == 16,
        ensures
            final(context).wf(),
            r is Ok <==> message35_rep_ok(views_of(frame.fields@)),
            r matches Err(e) ==> !(e is NoReply),
            r is Ok ==> (forall|k: int|
                1 <= k <= 16 ==> (#[trigger] final(context).value_of(
                    IdInfo::LibelleTableProduits(k as usize),
                ) matches Some(TValue::String(t)) && t@ == clip(
                    decode_utf8(views_of(frame.fields@)[k - 1]),
                    10,
                ))),
            forall|id2: IdInfo|
                valid_id(id2) && !message35_rep_id(id2) ==> #[trigger] final(context).value_of(id2)
                    == old(context).value_of(id2),
    {
        let mut indice_champ: usize = 0;
        while indice_champ < 16
            invariant
                context.wf(),
                frame.fields@.len() == 16,
                0 <= indice_champ <= 16,
                forall|k: int|
                    0 <= k < indice_champ ==> valid_utf8(#[trigger] views_of(frame.fields@)[k]),
                forall|k: int|
                    1 <= k <= indice_champ ==> (#[trigger] context.value_of(
                        IdInfo::LibelleTableProduits(k as usize),
                    ) matches Some(TValue::String(t)) && t@ == clip(
                        decode_utf8(views_of(frame.fields@)[k - 1]),
                        10,
                    )),
                forall|id2: IdInfo|
                    valid_id(id2) && !(id2 matches IdInfo::LibelleTableProduits(n) && 1 <= n
                        <= indice_champ) ==> #[trigger] context.value_of(id2) == old(context).value_of(id2),
            decreases 16 - indice_champ,
        {
            proof {
                assert(views_of(frame.fields@)[indice_champ as int] == frame.fields@[indice_champ as int]@);
            }
            match frame.fields[indice_champ].decode_str() {
                Ok(s) => {
                    context.set_info_string(
                        IdInfo::LibelleTableProduits(indice_champ + 1),
                        s.as_str(),
                    );
                },
                Err(e) => {
                    return Err(e);
                },
            }
            indice_champ = indice_champ + 1;
        }
        Ok(())
    }

    /// One full vacation of message 35.
    pub fn do_vacation<P: CommonSerialComTrait>(
        &self,
        st2150: &mut ST2150<P>,
        context: &mut Context,
    ) -> (r: Result<(), ProtocolError>)
        requires
            old(context).wf(),
        ensures
            final(context).wf(),
            r == Err::<(), ProtocolError>(ProtocolError::NoReply) ==> forall|id2: IdInfo|
                valid_id(id2) ==> #[trigger] final(context).value_of(id2) == old(context).value_of(id2),
            r is Ok ==> forall|k: int|
                1 <= k <= 16 ==> #[trigger] final(context).is_set(
                    IdInfo::LibelleTableProduits(k as usize),
                ),
            forall|id2: IdInfo|
                valid_id(id2) && !message35_rep_id(id2) ==> #[trigger] final(context).value_of(id2)
                    == old(context).value_of(id2),
    {
        let req = Frame::new(35);
        st2150.send_req(&req);

        let lens: Vec<usize> = vec![10, 10, 10, 10, 10, 10, 10, 10, 10, 10, 10, 10, 10, 10, 10, 10];
        proof {
            assert(lens@ =~= seq![
                10usize, 10, 10, 10, 10, 10, 10, 10, 10, 10, 10, 10, 10, 10, 10, 10,
            ]);
            reveal_with_fuel(sum_lens, 18);
            assert(expected_len(lens@) == 183);
        }
        let buffer = match st2150.wait_rep(lens.as_slice()) {
            Ok(b) => b,
            Err(e) => {
                return Err(e);
            },
        };
        let frame = match st2150.try_from_buffer(buffer.as_slice(), 35, lens.as_slice()) {
            Ok(f) => f,
            Err(e) => {
                return Err(e);
            },
        };
        self.update_context_from_rep(&frame, context)
    }
}

} // verus!
