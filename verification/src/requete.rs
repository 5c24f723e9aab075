//! Request builder: a message number and its fields, emitted in the same
//! wire form as a full frame.

use vstd::prelude::*;

use crate::field::Field;
use crate::frame::{frame_bytes, views_of};

verus! {

/// A request under construction.
pub struct Requete {
    /// Message number
    numero: u8,
    /// Fields of the request, in wire order
    fields: Vec<Field>,
}

impl Requete {
    /// The request's message number.
    pub closed spec fn spec_numero(self) -> u8 {
        self.numero
    }

    /// The bytes of the request's fields.
    pub closed spec fn spec_fields(self) -> Seq<Seq<u8>> {
        views_of(self.fields@)
    }

    /// Empty request for a message number.
    pub fn new(numero: u8) -> (r: Self)
        ensures
            r.spec_numero() == numero,
            r.spec_fields().len() == 0,
    {
        Requete { numero, fields: Vec::new() }
    }

    /// Append a field to the request.
    pub fn add_field(&mut self, field: Field)
        ensures
            final(self).spec_numero() == old(self).spec_numero(),
            final(self).spec_fields() =~= old(self).spec_fields().push(field@),
    {
        self.fields.push(field);
        proof {
            assert(final(self).spec_fields() =~= old(self).spec_fields().push(field@));
        }
    }

    /// The wire bytes of the request.
    pub fn to_frame(&self) -> (r: Vec<u8>)
        requires
            self.spec_numero() < 100,
        ensures
            r@ == frame_bytes(self.spec_numero(), self.spec_fields()),
    {
        let mut fields: Vec<Field> = Vec::new();
        let mut i: usize = 0;
        while i < self.fields.len()
            invariant
                0 <= i <= self.fields@.len(),
                fields@.len() == i,
                forall|j: int| 0 <= j < i ==> (#[trigger] fields@[j])@ == self.fields@[j]@,
            decreases self.fields@.len() - i,
        {
            fields.push(self.fields[i].clone());
            i = i + 1;
        }
        let frame = crate::frame::Frame { message_num: self.numero, fields };
        proof {
            assert(views_of(frame.fields@) =~= self.spec_fields());
        }
        frame.to_frame()
    }
}

} // verus!
