//! Message 11, "cargo state": no request field; the response carries the
//! compartment count, a product code and a quantity for each of the nine
//! compartments, the trailer flag and the product codes in the piping.

use vstd::prelude::*;

use crate::context::{
    set_u32_eff, set_u8_eff, valid_id, Context, IdInfo, TValue,
};
use crate::field::{all_digits, dec_value, is_digit};
use crate::frame::{expected_len, sum_lens, views_of, Frame};
use crate::serial_com::CommonSerialComTrait;
use crate::st2150::{Edition2150, ProtocolError, ST2150};

verus! {

/// Message 11: cargo state.
#[derive(Default)]
pub struct Message11 {}

/// The twenty-one response fields of message 11 are well formed: the count,
/// nine code/quantity pairs, the trailer flag character, and four digit
/// bytes for the piping product codes.
pub open spec fn message11_rep_ok(fs: Seq<Seq<u8>>) -> bool {
    &&& fs.len() == 21
    &&& all_digits(fs[0]) && dec_value(fs[0]) <= u8::MAX
    &&& forall|k: int|
        1 <= k <= 9 ==> {
            &&& all_digits(#[trigger] fs[2 * k - 1]) && dec_value(fs[2 * k - 1]) <= u8::MAX
            &&& all_digits(fs[2 * k]) && dec_value(fs[2 * k]) <= u32::MAX
        }
    &&& fs[19].len() == 1 && 32 <= fs[19][0] <= 127
    &&& fs[20].len() == 4 && all_digits(fs[20])
}

/// The identifiers message 11's response writes.
pub open spec fn message11_rep_id(id: IdInfo) -> bool {
    ||| id == IdInfo::NombreCompartiments
    ||| (id matches IdInfo::CodeProduitCompartiment(n) && 1 <= n <= 9)
    ||| (id matches IdInfo::QuantiteCompartiment(n) && 1 <= n <= 9)
    ||| id == IdInfo::PresenceRemorque
    ||| id == IdInfo::CodeProduitCollecteur
    ||| id == IdInfo::CodeProduitPartieCommune
    ||| id == IdInfo::CodeProduitFlexible1
    ||| id == IdInfo::CodeProduitFlexible2
}

impl Message11 {
    /// This message's number.
    pub fn message_num(&self) -> (r: u8)
        ensures
            r == 11,
    {
        11
    }

    /// Edition of the specification this message belongs to.
    pub fn edition_st2150(&self) -> (r: Edition2150)
        ensures
            r == Edition2150::C,
    {
        Edition2150::C
    }

    /// Short label of the message.
    pub fn message_str(&self) -> (r: &'static str)
        ensures
            r@ == "État cargaison"@,
    {
        "État cargaison"
    }

    /// Context identifiers the request needs.
    pub fn id_infos_request(&self) -> (r: Vec<IdInfo>)
        ensures
            r@.len() == 0,
    {
        Vec::new()
    }

    /// Context identifiers the response fills.
    pub fn id_infos_response(&self) -> (r: Vec<IdInfo>)
        ensures
            r@.len() == 24,
            r@[0] == IdInfo::NombreCompartiments,
            forall|k: int|
                #![trigger r@[2 * k]]
                1 <= k <= 9 ==> r@[2 * k - 1] == IdInfo::CodeProduitCompartiment(k as usize)
                    && r@[2 * k] == IdInfo::QuantiteCompartiment(k as usize),
            r@[19] == IdInfo::PresenceRemorque,
            r@[20] == IdInfo::CodeProduitCollecteur,
            r@[21] == IdInfo::CodeProduitPartieCommune,
            r@[22] == IdInfo::CodeProduitFlexible1,
            r@[23] == IdInfo::CodeProduitFlexible2,
    {
        let mut r: Vec<IdInfo> = Vec::new();
        r.push(IdInfo::NombreCompartiments);
        let mut n: usize = 1;
        while n <= 9
            invariant
                1 <= n <= 10,
                r@.len() == 2 * n - 1,
                r@[0] == IdInfo::NombreCompartiments,
                forall|k: int|
                    #![trigger r@[2 * k]]
                    1 <= k < n ==> r@[2 * k - 1] == IdInfo::CodeProduitCompartiment(k as usize)
                        && r@[2 * k] == IdInfo::QuantiteCompartiment(k as usize),
            decreases 10 - n,
        {
            r.push(IdInfo::CodeProduitCompartiment(n));
            r.push(IdInfo::QuantiteCompartiment(n));
            n = n + 1;
        }
        r.push(IdInfo::PresenceRemorque);
        r.push(IdInfo::CodeProduitCollecteur);
        r.push(IdInfo::CodeProduitPartieCommune);
        r.push(IdInfo::CodeProduitFlexible1);
        r.push(IdInfo::CodeProduitFlexible2);
        r
    }

    /// All the request's identifiers are set (there are none).
    pub fn availability(&self, context: &Context) -> (r: Result<(), ProtocolError>)
        requires
            context.wf(),
        ensures
            r is Ok,
    {
        let ids = self.id_infos_request();
        crate::messages::availability(context, &ids)
    }

    /// Write a well-formed response into the context.
    pub fn update_context_from_rep(&self, frame: &Frame, context: &mut Context) -> (r: Result<
        (),
        ProtocolError,
    >)
        requires
            old(context).wf(),
            frame.fields@.len() == 21,
        ensures
            final(context).wf(),
            r is Ok <==> message11_rep_ok(views_of(frame.fields@)),
            r matches Err(e) ==> !(e is NoReply),
            r is Ok ==> ({
                let fs = views_of(frame.fields@);
                &&& final(context).value_of(IdInfo::NombreCompartiments) == Some(
                    TValue::U8(dec_value(fs[0]) as u8),
                )
                &&& forall|k: int|
                    1 <= k <= 9 ==> set_u8_eff(
                        old(context).value_of(IdInfo::CodeProduitCompartiment(k as usize)),
                        #[trigger] final(context).value_of(
                            IdInfo::CodeProduitCompartiment(k as usize),
                        ),
                        IdInfo::CodeProduitCompartiment(k as usize),
                        dec_value(fs[2 * k - 1]) as u8,
                    ) && set_u32_eff(
                        old(context).value_of(IdInfo::QuantiteCompartiment(k as usize)),
                        final(context).value_of(IdInfo::QuantiteCompartiment(k as usize)),
                        IdInfo::QuantiteCompartiment(k as usize),
                        dec_value(fs[2 * k]) as u32,
                    )
                &&& final(context).value_of(IdInfo::PresenceRemorque) == Some(
                    TValue::Bool(fs[19][0] == 84),
                )
                &&& final(context).value_of(IdInfo::CodeProduitCollecteur) == Some(
                    TValue::U8((fs[20][0] - 48) as u8),
                )
                &&& final(context).value_of(IdInfo::CodeProduitPartieCommune) == Some(
                    TValue::U8((fs[20][1] - 48) as u8),
                )
                &&& final(context).value_of(IdInfo::CodeProduitFlexible1) == Some(
                    TValue::U8((fs[20][2] - 48) as u8),
                )
                &&& final(context).value_of(IdInfo::CodeProduitFlexible2) == Some(
                    TValue::U8((fs[20][3] - 48) as u8),
                )
            }),
            forall|id2: IdInfo|
                valid_id(id2) && !message11_rep_id(id2) ==> #[trigger] final(context).value_of(id2)
                    == old(context).value_of(id2),
    {
        let ghost fs = views_of(frame.fields@);

        // #0: compartment count
        proof {
            assert(fs[0] == frame.fields@[0]@);
        }
        match frame.fields[0].decode_number_u8() {
            Ok(v) => context.set_info_u8(IdInfo::NombreCompartiments, v),
            Err(e) => {
                return Err(e);
            },
        }

        // #1 to #18: product code and quantity per compartment
        let mut compart_num: usize = 1;
        while compart_num <= 9
            invariant
                context.wf(),
                fs == views_of(frame.fields@),
                frame.fields@.len() == 21,
                1 <= compart_num <= 10,
                context.value_of(IdInfo::NombreCompartiments) == Some(
                    TValue::U8(dec_value(fs[0]) as u8),
                ),
                all_digits(fs[0]) && dec_value(fs[0]) <= u8::MAX,
                forall|k: int|
                    1 <= k < compart_num ==> {
                        &&& all_digits(#[trigger] fs[2 * k - 1]) && dec_value(fs[2 * k - 1])
                            <= u8::MAX
                        &&& all_digits(fs[2 * k]) && dec_value(fs[2 * k]) <= u32::MAX
                    },
                forall|k: int|
                    1 <= k < compart_num ==> set_u8_eff(
                        old(context).value_of(IdInfo::CodeProduitCompartiment(k as usize)),
                        #[trigger] context.value_of(IdInfo::CodeProduitCompartiment(k as usize)),
                        IdInfo::CodeProduitCompartiment(k as usize),
                        dec_value(fs[2 * k - 1]) as u8,
                    ) && set_u32_eff(
                        old(context).value_of(IdInfo::QuantiteCompartiment(k as usize)),
                        context.value_of(IdInfo::QuantiteCompartiment(k as usize)),
                        IdInfo::QuantiteCompartiment(k as usize),
                        dec_value(fs[2 * k]) as u32,
                    ),
                forall|id2: IdInfo|
                    valid_id(id2) && id2 != IdInfo::NombreCompartiments && !(
                    id2 matches IdInfo::CodeProduitCompartiment(n) && 1 <= n < compart_num) && !(
                    id2 matches IdInfo::QuantiteCompartiment(n) && 1 <= n < compart_num)
                        ==> #[trigger] context.value_of(id2) == old(context).value_of(id2),
            decreases 10 - compart_num,
        {
            let index_champ = 2 * compart_num - 1;
            proof {
                assert(fs[index_champ as int] == frame.fields@[index_champ as int]@);
                assert(fs[index_champ + 1] == frame.fields@[index_champ + 1]@);
            }
            match frame.fields[index_champ].decode_number_u8() {
                Ok(v) => context.set_info_u8(IdInfo::CodeProduitCompartiment(compart_num), v),
                Err(e) => {
                    return Err(e);
                },
            }
            match frame.fields[index_champ + 1].decode_number_u32() {
                Ok(v) => context.set_info_u32(IdInfo::QuantiteCompartiment(compart_num), v),
                Err(e) => {
                    return Err(e);
                },
            }
            proof {
                crate::field::lemma_dec_value_nonneg(fs[index_champ as int]);
                crate::field::lemma_dec_value_nonneg(fs[index_champ + 1]);
            }
            compart_num = compart_num + 1;
        }

        // #19: trailer flag, 'T' for present
        proof {
            assert(fs[19] == frame.fields@[19]@);
            assert(fs[20] == frame.fields@[20]@);
        }
        let presence_remorque = match frame.fields[19].decode_char() {
            Ok(c) => c == 'T',
            Err(e) => {
                return Err(e);
            },
        };
        context.set_info_bool(IdInfo::PresenceRemorque, presence_remorque);

        // #20: the four piping product codes, one digit each
        let code_produits = frame.fields[20].to_frame();
        if code_produits.len() != 4 {
            return Err(ProtocolError::IllegalRepFieldValue(
                frame.fields[20].clone(),
                String::from_str("produits tuyauterie"),
                String::from_str("4 x code produit"),
            ));
        }
        let b0 = code_produits[0];
        let b1 = code_produits[1];
        let b2 = code_produits[2];
        let b3 = code_produits[3];
        if b0 < 48 || b0 > 57 || b1 < 48 || b1 > 57 || b2 < 48 || b2 > 57 || b3 < 48 || b3 > 57 {
            return Err(ProtocolError::IllegalRepFieldValue(
                frame.fields[20].clone(),
                String::from_str("produits tuyauterie"),
                String::from_str("4 x code produit"),
            ));
        }
        context.set_info_u8(IdInfo::CodeProduitCollecteur, b0 - 48);
        context.set_info_u8(IdInfo::CodeProduitPartieCommune, b1 - 48);
        context.set_info_u8(IdInfo::CodeProduitFlexible1, b2 - 48);
        context.set_info_u8(IdInfo::CodeProduitFlexible2, b3 - 48);

        proof {
            crate::field::lemma_dec_value_nonneg(fs[0]);
            assert(all_digits(fs[20])) by {
                assert forall|i: int| 0 <= i < fs[20].len() implies is_digit(fs[20][i]) by {
                    assert(fs[20][0] == b0 && fs[20][1] == b1 && fs[20][2] == b2 && fs[20][3]
                        == b3);
                }
            }
        }
        Ok(())
    }

    /// One full vacation of message 11.
    #[verifier::rlimit(60)]
    pub fn do_vacation<P: CommonSerialComTrait>(
        &self,
        st2150: &mut ST2150<P>,
        context: &mut Context,
    ) -> (r: Result<(), ProtocolError>)
        requires
            old(context).wf(),
        ensures
            final(context).wf(),
            r == Err::<(), ProtocolError>(ProtocolError::NoReply) ==> forall|id2: IdInfo|
                valid_id(id2) ==> #[trigger] final(context).value_of(id2) == old(context).value_of(id2),
            r is Ok ==> final(context).is_set(IdInfo::NombreCompartiments) && final(context).is_set(IdInfo::PresenceRemorque) && final(context).is_set(
                IdInfo::CodeProduitCollecteur,
            ),
            forall|id2: IdInfo|
                valid_id(id2) && !message11_rep_id(id2) ==> #[trigger] final(context).value_of(id2)
                    == old(context).value_of(id2),
    {
        let req = Frame::new(11);
        st2150.send_req(&req);

        let lens: Vec<usize> = vec![
            1, 1, 5, 1, 5, 1, 5, 1, 5, 1, 5, 1, 5, 1, 5, 1, 5, 1, 5, 1, 4,
        ];
        proof {
            assert(lens@ =~= seq![
                1usize, 1, 5, 1, 5, 1, 5, 1, 5, 1, 5, 1, 5, 1, 5, 1, 5, 1, 5, 1, 4,
            ]);
            reveal_with_fuel(sum_lens, 23);
            assert(expected_len(lens@) == 88);
        }
        let buffer = match st2150.wait_rep(lens.as_slice()) {
            Ok(b) => b,
            Err(e) => {
                return Err(e);
            },
        };
        let frame = match st2150.try_from_buffer(buffer.as_slice(), 11, lens.as_slice()) {
            Ok(f) => f,
            Err(e) => {
                return Err(e);
            },
        };
        self.update_context_from_rep(&frame, context)
    }
}

} // verus!
