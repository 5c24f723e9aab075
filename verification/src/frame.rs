//! The frame envelope: assembling a full message from its fields and parsing
//! a received buffer back into one, with checksum validation and handling of
//! the reserved error message number 50.
//!
//! A message is `STX + number(2) + { SEPARATOR + field }* + SEPARATOR +
//! checksum(2) + ETX`.

use vstd::prelude::*;

use crate::field::{
    dec_fixed, dec_value, hexa_fixed, hexa_value, lemma_dec_fixed_value, lemma_dec_fixed_wf,
    lemma_hexa_fixed_value, lemma_hexa_fixed_wf, pow10, pow16, Field,
};
use crate::protocol::{
    calcul_checksum, car_hexa_to_value, spec_car_hexa_to_value, xor_fold, ACK, ETX, NACK,
    SEPARATOR, STX,
};
use crate::st2150::ProtocolError;

verus! {

/// The views of a list of fields.
pub open spec fn views_of(fields: Seq<Field>) -> Seq<Seq<u8>> {
    Seq::new(fields.len(), |i: int| fields[i]@)
}

/// Sum of a table of field lengths.
pub open spec fn sum_lens(lens: Seq<usize>) -> int
    decreases lens.len(),
{
    if lens.len() == 0 {
        0
    } else {
        lens[0] + sum_lens(lens.drop_first())
    }
}

/// Every field preceded by a separator, laid end to end.
pub open spec fn fields_concat(fields: Seq<Seq<u8>>) -> Seq<u8>
    decreases fields.len(),
{
    if fields.len() == 0 {
        Seq::empty()
    } else {
        seq![SEPARATOR] + fields.first() + fields_concat(fields.drop_first())
    }
}

/// What the checksum covers: the two digits of the message number, every
/// field with its leading separator, and the final separator.
pub open spec fn payload_bytes(num: u8, fields: Seq<Seq<u8>>) -> Seq<u8> {
    dec_fixed(num as nat, 2) + fields_concat(fields) + seq![SEPARATOR]
}

/// The full wire form of a frame.
pub open spec fn frame_bytes(num: u8, fields: Seq<Seq<u8>>) -> Seq<u8> {
    seq![STX] + payload_bytes(num, fields) + hexa_fixed(
        xor_fold(payload_bytes(num, fields)) as nat,
        2,
    ) + seq![ETX]
}

/// Total length a frame must have for a given field length table:
/// STX + number(2) + a separator and the bytes of each field + the final
/// separator + checksum(2) + ETX.
pub open spec fn expected_len(lens: Seq<usize>) -> int {
    7 + lens.len() + sum_lens(lens)
}

/// Byte position of the separator in front of field `k` (for
/// `k == lens.len()`: of the final separator).
pub open spec fn field_sep_pos(lens: Seq<usize>, k: int) -> int {
    3 + k + sum_lens(lens.subrange(0, k))
}

/// Checksum carried by the two hexadecimal digits before the final ETX.
pub open spec fn rec_checksum(b: Seq<u8>) -> int {
    spec_car_hexa_to_value(b[b.len() - 3]) * 16 + spec_car_hexa_to_value(b[b.len() - 2])
}

/// Message number carried by the two bytes after STX, with the wrapping that
/// byte arithmetic gives when they are not digits.
pub open spec fn rec_num(b: Seq<u8>) -> u8 {
    ((((b[1] - 48) * 10 + (b[2] - 48)) + 768) % 256) as u8
}

/// At least the shortest possible frame, STX first and ETX last.
pub open spec fn well_delimited(b: Seq<u8>) -> bool {
    b.len() >= 7 && b[0] == STX && b.last() == ETX
}

/// The received checksum matches the one recomputed over the received
/// payload.
pub open spec fn checksum_ok(b: Seq<u8>) -> bool {
    rec_checksum(b) == xor_fold(b.subrange(1, b.len() - 3))
}

/// The separators of the first `k` fields are in place.
pub open spec fn seps_ok_upto(b: Seq<u8>, lens: Seq<usize>, k: int) -> bool {
    forall|j: int| 0 <= j < k ==> b[#[trigger] field_sep_pos(lens, j)] == SEPARATOR
}

/// Everything `Frame::try_from_buffer` promises, one clause per validation,
/// in the order the validations run.
pub open spec fn parse_spec(
    b: Seq<u8>,
    message_num: u8,
    lens: Seq<usize>,
    r: Result<Frame, ProtocolError>,
) -> bool {
    &&& (b.len() < 7 ==> r == Err::<Frame, ProtocolError>(
        ProtocolError::BadMessageLen(b.len() as usize, 7),
    ))
    &&& (b.len() >= 7 && b[0] != STX ==> r == Err::<Frame, ProtocolError>(
        ProtocolError::MissingSTX,
    ))
    &&& (b.len() >= 7 && b[0] == STX && b.last() != ETX ==> r == Err::<Frame, ProtocolError>(
        ProtocolError::MissingETX,
    ))
    &&& (well_delimited(b) && !checksum_ok(b) ==> r == Err::<Frame, ProtocolError>(
        ProtocolError::BadChecksum(
            rec_checksum(b) as u8,
            xor_fold(b.subrange(1, b.len() - 3)),
        ),
    ))
    &&& (well_delimited(b) && checksum_ok(b) && rec_num(b) == 50 ==> (r matches Err(
        ProtocolError::ErrorMessage50(t),
    ) && (if b.len() == 14 && vstd::utf8::valid_utf8(b.subrange(4, 10)) {
        t@ == vstd::utf8::decode_utf8(b.subrange(4, 10))
    } else {
        t@ == "??? Malformed ???"@
    })))
    &&& (well_delimited(b) && checksum_ok(b) && rec_num(b) != 50 && rec_num(b) != message_num
        ==> r == Err::<Frame, ProtocolError>(
        ProtocolError::BadMessageNumber(rec_num(b), message_num),
    ))
    &&& (well_delimited(b) && checksum_ok(b) && rec_num(b) == message_num && message_num != 50
        && b.len() != expected_len(lens) ==> r == Err::<Frame, ProtocolError>(
        ProtocolError::BadMessageLen(b.len() as usize, expected_len(lens) as usize),
    ))
    &&& (well_delimited(b) && checksum_ok(b) && rec_num(b) == message_num && message_num != 50
        && b.len() == expected_len(lens) ==> {
        &&& (forall|k: int|
            0 <= k <= lens.len() && seps_ok_upto(b, lens, k) && b[#[trigger] field_sep_pos(
                lens,
                k,
            )] != SEPARATOR ==> r == Err::<Frame, ProtocolError>(
                ProtocolError::SeparatorExpected(field_sep_pos(lens, k) as usize),
            ))
        &&& (seps_ok_upto(b, lens, lens.len() as int + 1) ==> (r matches Ok(f) && f.message_num
            == message_num && f.fields@.len() == lens.len() && (forall|k: int|
            0 <= k < lens.len() ==> #[trigger] f.fields@[k]@ == b.subrange(
                field_sep_pos(lens, k) + 1,
                field_sep_pos(lens, k) + 1 + lens[k],
            ))))
    })
}

/// A whole message of the protocol: its number and its decoded fields.
#[derive(Debug, PartialEq, Eq)]
pub struct Frame {
    /// Message number (0 to 99)
    pub message_num: u8,
    /// The fields of the message, in wire order
    pub fields: Vec<Field>,
}

/// Appending a length to a table adds it to the sum.
pub proof fn lemma_sum_lens_push(lens: Seq<usize>, x: usize)
    ensures
        sum_lens(lens.push(x)) == sum_lens(lens) + x,
    decreases lens.len(),
{
    if lens.len() == 0 {
        assert(lens.push(x).drop_first() =~= Seq::<usize>::empty());
        assert(lens.push(x)[0] == x);
        assert(sum_lens(lens.push(x)) == x + sum_lens(Seq::<usize>::empty()));
    } else {
        assert(lens.push(x).drop_first() =~= lens.drop_first().push(x));
        lemma_sum_lens_push(lens.drop_first(), x);
        assert(lens.push(x)[0] == lens[0]);
        assert(sum_lens(lens.push(x)) == lens[0] + sum_lens(lens.drop_first().push(x)));
    }
}

/// One more entry of a prefix adds that entry to the prefix sum.
pub proof fn lemma_sum_lens_prefix_step(lens: Seq<usize>, k: int)
    requires
        0 <= k < lens.len(),
    ensures
        sum_lens(lens.subrange(0, k + 1)) == sum_lens(lens.subrange(0, k)) + lens[k],
{
    assert(lens.subrange(0, k + 1) =~= lens.subrange(0, k).push(lens[k]));
    lemma_sum_lens_push(lens.subrange(0, k), lens[k]);
}

/// No field length table sums to less than nothing.
pub proof fn lemma_sum_lens_nonneg(lens: Seq<usize>)
    ensures
        sum_lens(lens) >= 0,
    decreases lens.len(),
{
    if lens.len() > 0 {
        lemma_sum_lens_nonneg(lens.drop_first());
    }
}

/// A prefix never sums to more than the whole table.
pub proof fn lemma_sum_lens_prefix_le(lens: Seq<usize>, k: int)
    requires
        0 <= k <= lens.len(),
    ensures
        sum_lens(lens.subrange(0, k)) <= sum_lens(lens),
    decreases lens.len() - k,
{
    if k == lens.len() {
        assert(lens.subrange(0, k) =~= lens);
    } else {
        lemma_sum_lens_prefix_step(lens, k);
        lemma_sum_lens_prefix_le(lens, k + 1);
    }
}

/// Layout of the concatenated fields: the separator in front of field `k`
/// sits after `k` separators and the earlier fields' bytes, and the field's
/// own bytes follow it.
pub proof fn lemma_concat_layout(fields: Seq<Seq<u8>>, lens: Seq<usize>)
    requires
        lens.len() == fields.len(),
        forall|k: int| 0 <= k < fields.len() ==> (#[trigger] fields[k]).len() == lens[k],
    ensures
        fields_concat(fields).len() == lens.len() + sum_lens(lens),
        forall|k: int|
            #![trigger lens.subrange(0, k)]
            0 <= k < lens.len() ==> {
                let p = k + sum_lens(lens.subrange(0, k));
                fields_concat(fields)[p] == SEPARATOR && fields_concat(fields).subrange(
                    p + 1,
                    p + 1 + lens[k],
                ) == fields[k]
            },
    decreases fields.len(),
{
    if fields.len() > 0 {
        let rest = fields.drop_first();
        let lrest = lens.drop_first();
        lemma_concat_layout(rest, lrest);
        let c = fields_concat(fields);
        assert(c.len() == lens.len() + sum_lens(lens));
        assert forall|k: int|
            #![trigger lens.subrange(0, k)]
            0 <= k < lens.len() implies {
            let p = k + sum_lens(lens.subrange(0, k));
            fields_concat(fields)[p] == SEPARATOR && fields_concat(fields).subrange(
                p + 1,
                p + 1 + lens[k],
            ) == fields[k]
        } by {
            let p = k + sum_lens(lens.subrange(0, k));
            if k == 0 {
                assert(lens.subrange(0, 0) =~= Seq::<usize>::empty());
                assert(p == 0);
                assert(c[0] == SEPARATOR);
                assert(c.subrange(1, 1 + lens[0]) =~= fields[0]);
            } else {
                assert(lens.subrange(0, k).drop_first() =~= lrest.subrange(0, k - 1));
                let p2 = (k - 1) + sum_lens(lrest.subrange(0, k - 1));
                assert(sum_lens(lens.subrange(0, k)) == lens[0] + sum_lens(
                    lrest.subrange(0, k - 1),
                ));
                assert(p == p2 + 1 + lens[0]);
                lemma_sum_lens_prefix_step(lrest, k - 1);
                lemma_sum_lens_prefix_le(lrest, k);
                lemma_sum_lens_nonneg(lrest.subrange(0, k - 1));
                assert(p2 + 1 + lrest[k - 1] <= fields_concat(rest).len());
                assert(fields_concat(rest)[p2] == SEPARATOR);
                assert(fields_concat(rest).subrange(p2 + 1, p2 + 1 + lrest[k - 1]) == rest[k - 1]);
                assert(c[p] == fields_concat(rest)[p2]);
                assert forall|t: int| 0 <= t < lens[k] implies #[trigger] c[p + 1 + t]
                    == fields_concat(rest)[p2 + 1 + t] by {
                    assert(p + 1 + t == (1 + lens[0]) + (p2 + 1 + t));
                }
                assert(c.subrange(p + 1, p + 1 + lens[k]) =~= fields_concat(rest).subrange(
                    p2 + 1,
                    p2 + 1 + lrest[k - 1],
                ));
            }
        }
    }
}

/// Appending a field appends its separator and bytes to the concatenation.
pub proof fn lemma_fields_concat_push(fields: Seq<Seq<u8>>, f: Seq<u8>)
    ensures
        fields_concat(fields.push(f)) == fields_concat(fields) + seq![SEPARATOR] + f,
    decreases fields.len(),
{
    if fields.len() == 0 {
        assert(fields.push(f).drop_first() =~= Seq::<Seq<u8>>::empty());
        assert(fields.push(f).first() == f);
        assert(fields_concat(fields.push(f)) == seq![SEPARATOR] + f + fields_concat(
            Seq::<Seq<u8>>::empty(),
        ));
        assert(fields_concat(fields.push(f)) =~= fields_concat(fields) + seq![SEPARATOR] + f);
    } else {
        assert(fields.push(f).drop_first() =~= fields.drop_first().push(f));
        lemma_fields_concat_push(fields.drop_first(), f);
        assert(fields.push(f).first() == fields.first());
        assert(fields_concat(fields.push(f)) == seq![SEPARATOR] + fields.first() + fields_concat(
            fields.drop_first().push(f),
        ));
        assert(fields_concat(fields.push(f)) =~= fields_concat(fields) + seq![SEPARATOR] + f);
    }
}

/// Law, first half: the wire form of a frame passes every validation of the
/// parser — right length, delimiters, checksum, number, separators — and the
/// bytes between the separators are the original fields.
pub proof fn lemma_frame_bytes_parse_ok(num: u8, fields: Seq<Seq<u8>>, lens: Seq<usize>)
    requires
        num < 100,
        lens.len() == fields.len(),
        forall|k: int| 0 <= k < fields.len() ==> (#[trigger] fields[k]).len() == lens[k],
    ensures
        ({
            let b = frame_bytes(num, fields);
            &&& b.len() == expected_len(lens)
            &&& well_delimited(b)
            &&& checksum_ok(b)
            &&& rec_num(b) == num
            &&& seps_ok_upto(b, lens, lens.len() as int + 1)
            &&& forall|k: int|
                0 <= k < lens.len() ==> b.subrange(
                    #[trigger] field_sep_pos(lens, k) + 1,
                    field_sep_pos(lens, k) + 1 + lens[k],
                ) == fields[k]
        }),
{
    let p = payload_bytes(num, fields);
    let ck = xor_fold(p);
    let ckd = hexa_fixed(ck as nat, 2);
    let b = frame_bytes(num, fields);
    let c = fields_concat(fields);
    let d = dec_fixed(num as nat, 2);
    lemma_concat_layout(fields, lens);
    lemma_dec_fixed_wf(num as nat, 2);
    lemma_hexa_fixed_wf(ck as nat, 2);
    assert(pow10(2) == 100) by {
        assert(pow10(0) == 1);
        assert(pow10(1) == 10);
    }
    assert(pow16(2) == 256) by {
        assert(pow16(0) == 1);
        assert(pow16(1) == 16);
    }
    lemma_dec_fixed_value(num as nat, 2);
    lemma_hexa_fixed_value(ck as nat, 2);
    assert(p.len() == 3 + c.len());
    assert(b.len() == p.len() + 4);
    assert(b.len() == expected_len(lens));
    assert(b[0] == STX);
    assert(b.last() == ETX);

    // the received checksum digits spell the computed checksum
    assert(b[b.len() - 3] == ckd[0]);
    assert(b[b.len() - 2] == ckd[1]);
    assert(hexa_value(ckd) == ck);
    assert(hexa_value(ckd) == hexa_value(ckd.drop_last()) * 16 + spec_car_hexa_to_value(
        ckd.last(),
    ));
    assert(ckd.drop_last().drop_last() =~= Seq::<u8>::empty());
    assert(hexa_value(ckd.drop_last()) == spec_car_hexa_to_value(ckd[0]));
    assert(rec_checksum(b) == ck);
    assert(b.subrange(1, b.len() - 3) =~= p);
    assert(checksum_ok(b));

    // the two digits after STX spell the message number
    assert(b[1] == d[0] && b[2] == d[2 - 1]);
    assert(dec_value(d) == num);
    assert(dec_value(d) == dec_value(d.drop_last()) * 10 + (d.last() - 48));
    assert(d.drop_last().drop_last() =~= Seq::<u8>::empty());
    assert(dec_value(d.drop_last()) == d[0] - 48);
    assert((d[0] - 48) * 10 + (d[1] - 48) == num);
    assert((num + 768) % 256 == num) by (nonlinear_arith)
        requires
            0 <= num < 100,
    ;
    assert(rec_num(b) == num);

    // separators and field extraction
    assert forall|k: int| 0 <= k <= lens.len() implies b[#[trigger] field_sep_pos(lens, k)]
        == SEPARATOR by {
        lemma_sum_lens_prefix_le(lens, k);
        lemma_sum_lens_nonneg(lens.subrange(0, k));
        if k < lens.len() {
            let q = k + sum_lens(lens.subrange(0, k));
            assert(c[q] == SEPARATOR);
            assert(b[3 + q] == p[2 + q]);
            assert(p[2 + q] == c[q]);
        } else {
            assert(lens.subrange(0, k) =~= lens);
            let q = k + sum_lens(lens);
            assert(field_sep_pos(lens, k) == 3 + q);
            assert(b[3 + q] == p[2 + q]);
            assert(p[2 + q] == SEPARATOR);
        }
    }
    assert forall|k: int| 0 <= k < lens.len() implies b.subrange(
        #[trigger] field_sep_pos(lens, k) + 1,
        field_sep_pos(lens, k) + 1 + lens[k],
    ) == fields[k] by {
        lemma_sum_lens_prefix_step(lens, k);
        lemma_sum_lens_prefix_le(lens, k + 1);
        lemma_sum_lens_nonneg(lens.subrange(0, k));
        let q = k + sum_lens(lens.subrange(0, k));
        assert(c.subrange(q + 1, q + 1 + lens[k]) == fields[k]);
        assert forall|t: int| 0 <= t < lens[k] implies #[trigger] b[field_sep_pos(lens, k) + 1 + t]
            == fields[k][t] by {
            assert(b[3 + (q + 1 + t)] == p[2 + (q + 1 + t)]);
            assert(p[2 + (q + 1 + t)] == c[q + 1 + t]);
            assert(c[q + 1 + t] == c.subrange(q + 1, q + 1 + lens[k])[t]);
        }
        assert(b.subrange(
            field_sep_pos(lens, k) + 1,
            field_sep_pos(lens, k) + 1 + lens[k],
        ) =~= fields[k]);
    }
}

/// Law, second half: whatever `try_from_buffer` returns on the wire form of
/// a frame is `Ok`, and carries the original message number and fields.
pub proof fn lemma_frame_round_trip(
    num: u8,
    fields: Seq<Seq<u8>>,
    lens: Seq<usize>,
    r: Result<Frame, ProtocolError>,
)
    requires
        num < 100,
        num != 50,
        lens.len() == fields.len(),
        forall|k: int| 0 <= k < fields.len() ==> (#[trigger] fields[k]).len() == lens[k],
        parse_spec(frame_bytes(num, fields), num, lens, r),
    ensures
        r matches Ok(f) && f.message_num == num && views_of(f.fields@) =~= fields,
{
    lemma_frame_bytes_parse_ok(num, fields, lens);
    let b = frame_bytes(num, fields);
    assert(r matches Ok(f) && f.message_num == num && f.fields@.len() == lens.len());
    if let Ok(f) = r {
        assert forall|k: int| 0 <= k < fields.len() implies views_of(f.fields@)[k]
            == fields[k] by {
            assert(f.fields@[k]@ == b.subrange(
                field_sep_pos(lens, k) + 1,
                field_sep_pos(lens, k) + 1 + lens[k],
            ));
        }
    }
}

/// Total length for a given field length table, as the parser checks it.
pub fn len_expected_response(len_fields: &[usize]) -> (r: usize)
    requires
        expected_len(len_fields@) <= usize::MAX,
    ensures
        r == expected_len(len_fields@),
{
    let ghost lens = len_fields@;
    let mut total: usize = 7;
    let mut i: usize = 0;
    while i < len_fields.len()
        invariant
            lens == len_fields@,
            expected_len(lens) <= usize::MAX,
            0 <= i <= lens.len(),
            total == 7 + i + sum_lens(lens.subrange(0, i as int)),
        decreases lens.len() - i,
    {
        proof {
            lemma_sum_lens_prefix_step(lens, i as int);
            lemma_sum_lens_prefix_le(lens, i + 1);
        }
        total = total + 1 + len_fields[i];
        i = i + 1;
    }
    proof {
        assert(lens.subrange(0, lens.len() as int) =~= lens);
    }
    total
}

impl Frame {
    /// Empty frame for a message number.
    pub fn new(numero: u8) -> (r: Self)
        ensures
            r.message_num == numero,
            r.fields@.len() == 0,
    {
        Frame { message_num: numero, fields: Vec::new() }
    }

    /// Is the first field the one-byte ACK sentinel?
    pub fn is_ack(&self) -> (r: bool)
        ensures
            r == (self.fields@.len() > 0 && self.fields@[0]@ =~= seq![ACK]),
    {
        if self.fields.len() == 0 {
            return false;
        }
        let b = self.fields[0].to_frame();
        proof {
            if b@.len() == 1 && b@[0] == ACK {
                assert(b@ =~= seq![ACK]);
            }
        }
        b.len() == 1 && b[0] == ACK
    }

    /// Is the first field the one-byte NACK sentinel?
    pub fn is_nack(&self) -> (r: bool)
        ensures
            r == (self.fields@.len() > 0 && self.fields@[0]@ =~= seq![NACK]),
    {
        if self.fields.len() == 0 {
            return false;
        }
        let b = self.fields[0].to_frame();
        proof {
            if b@.len() == 1 && b@[0] == NACK {
                assert(b@ =~= seq![NACK]);
            }
        }
        b.len() == 1 && b[0] == NACK
    }

    /// Append a field to the message.
    pub fn add_field(&mut self, field: Field)
        ensures
            final(self).message_num == old(self).message_num,
            final(self).fields@ == old(self).fields@.push(field),
    {
        self.fields.push(field);
    }

    /// The wire bytes of the frame: delimiters, the two digits of the
    /// number, every field behind its separator, and the checksum.
    pub fn to_frame(&self) -> (r: Vec<u8>)
        requires
            self.message_num < 100,
        ensures
            r@ == frame_bytes(self.message_num, views_of(self.fields@)),
    {
        let ghost num = self.message_num;
        let ghost fvs = views_of(self.fields@);
        let mut req: Vec<u8> = Vec::new();
        req.push(STX);
        proof {
            assert(pow10(2) == 100) by {
                assert(pow10(0) == 1);
                assert(pow10(1) == 10);
            }
        }
        let command_field = Field::encode_number(self.message_num as u64, 2);
        let mut cmd = command_field.to_frame();
        req.append(&mut cmd);
        proof {
            assert(req@ =~= seq![STX] + dec_fixed(num as nat, 2) + fields_concat(
                fvs.subrange(0, 0),
            ));
        }
        let mut i: usize = 0;
        while i < self.fields.len()
            invariant
                num == self.message_num,
                fvs == views_of(self.fields@),
                0 <= i <= self.fields@.len(),
                req@ == seq![STX] + dec_fixed(num as nat, 2) + fields_concat(
                    fvs.subrange(0, i as int),
                ),
            decreases self.fields@.len() - i,
        {
            req.push(SEPARATOR);
            let mut fb = self.fields[i].to_frame();
            req.append(&mut fb);
            proof {
                assert(fvs.subrange(0, i + 1) =~= fvs.subrange(0, i as int).push(fvs[i as int]));
                lemma_fields_concat_push(fvs.subrange(0, i as int), fvs[i as int]);
                assert(req@ =~= seq![STX] + dec_fixed(num as nat, 2) + fields_concat(
                    fvs.subrange(0, i + 1),
                ));
            }
            i = i + 1;
        }
        req.push(SEPARATOR);
        proof {
            assert(fvs.subrange(0, fvs.len() as int) =~= fvs);
            assert(req@ =~= seq![STX] + payload_bytes(num, fvs));
        }
        let checksum = calcul_checksum(vstd::slice::slice_subrange(req.as_slice(), 1, req.len()));
        proof {
            assert(req@.subrange(1, req@.len() as int) =~= payload_bytes(num, fvs));
            assert(pow16(2) == 256) by {
                assert(pow16(0) == 1);
                assert(pow16(1) == 16);
            }
        }
        let checksum_field = Field::encode_hexa(checksum as u64, 2);
        let mut ck = checksum_field.to_frame();
        req.append(&mut ck);
        req.push(ETX);
        proof {
            assert(req@ =~= frame_bytes(num, fvs));
        }
        req
    }

    /// Decode and validate a received buffer against an expected message
    /// number and field length table. The checks run in a fixed order —
    /// length floor, STX, ETX, checksum, the reserved error number 50, the
    /// expected number, the exact length, each separator — and the first
    /// failure is reported; see `parse_spec` for the full statement.
    #[verifier::loop_isolation(false)]
    pub fn try_from_buffer(buffer: &[u8], message_num: u8, len_fields: &[usize]) -> (r: Result<
        Frame,
        ProtocolError,
    >)
        requires
            expected_len(len_fields@) <= usize::MAX,
        ensures
            parse_spec(buffer@, message_num, len_fields@, r),
            r matches Err(e) ==> !(e is NoReply),
    {
        let ghost b = buffer@;
        let ghost lens = len_fields@;
        let rec_len = buffer.len();

        if rec_len < 7 {
            return Err(ProtocolError::BadMessageLen(rec_len, 7));
        }
        if buffer[0] != STX {
            return Err(ProtocolError::MissingSTX);
        }
        if buffer[rec_len - 1] != ETX {
            return Err(ProtocolError::MissingETX);
        }

        let rc = car_hexa_to_value(buffer[rec_len - 3]) * 16 + car_hexa_to_value(
            buffer[rec_len - 2],
        );
        let checksum = calcul_checksum(vstd::slice::slice_subrange(buffer, 1, rec_len - 3));
        if checksum != rc {
            return Err(ProtocolError::BadChecksum(rc, checksum));
        }

        let v: i32 = ((buffer[1] as i32) - 48) * 10 + ((buffer[2] as i32) - 48) + 768;
        let rnum: u8 = (v % 256) as u8;
        proof {
            assert(rnum == rec_num(b));
        }

        if rnum == 50 {
            if rec_len == 14 {
                match crate::ascii::utf8_bytes_to_string(
                    vstd::slice::slice_subrange(buffer, 4, 10),
                ) {
                    Some(txt) => {
                        return Err(ProtocolError::ErrorMessage50(txt));
                    },
                    None => {
                        return Err(ProtocolError::ErrorMessage50(
                            String::from_str("??? Malformed ???"),
                        ));
                    },
                }
            }
            return Err(ProtocolError::ErrorMessage50(String::from_str("??? Malformed ???")));
        }

        if rnum != message_num {
            return Err(ProtocolError::BadMessageNumber(rnum, message_num));
        }

        let expected = len_expected_response(len_fields);
        if rec_len != expected {
            return Err(ProtocolError::BadMessageLen(rec_len, expected));
        }

        let mut frame = Frame::new(message_num);
        let mut cur: usize = 3;
        let mut k: usize = 0;
        while k < len_fields.len()
            invariant
                b == buffer@,
                lens == len_fields@,
                b.len() == expected_len(lens),
                0 <= k <= lens.len(),
                cur == field_sep_pos(lens, k as int),
                seps_ok_upto(b, lens, k as int),
                frame.message_num == message_num,
                frame.fields@.len() == k,
                forall|j: int|
                    0 <= j < k ==> #[trigger] frame.fields@[j]@ == b.subrange(
                        field_sep_pos(lens, j) + 1,
                        field_sep_pos(lens, j) + 1 + lens[j],
                    ),
            decreases lens.len() - k,
        {
            proof {
                lemma_sum_lens_prefix_step(lens, k as int);
                lemma_sum_lens_prefix_le(lens, k + 1);
                assert(field_sep_pos(lens, k as int) + 1 + lens[k as int] == field_sep_pos(
                    lens,
                    k + 1,
                ));
                assert(lens.subrange(0, lens.len() as int) =~= lens);
                assert(field_sep_pos(lens, k + 1) <= field_sep_pos(lens, lens.len() as int));
            }
            if buffer[cur] != SEPARATOR {
                proof {
                    assert forall|k2: int|
                        0 <= k2 <= lens.len() && seps_ok_upto(b, lens, k2) && b[field_sep_pos(
                            lens,
                            k2,
                        )] != SEPARATOR implies k2 == k by {
                        if k2 < k {
                            assert(b[field_sep_pos(lens, k2)] == SEPARATOR);
                        }
                        if k2 > k {
                            assert(b[field_sep_pos(lens, k as int)] == SEPARATOR);
                        }
                    }
                }
                return Err(ProtocolError::SeparatorExpected(cur));
            }
            let fl = len_fields[k];
            let field = Field::new(vstd::slice::slice_subrange(buffer, cur + 1, cur + 1 + fl));
            frame.add_field(field);
            cur = cur + 1 + fl;
            k = k + 1;
        }
        proof {
            assert(lens.subrange(0, lens.len() as int) =~= lens);
            assert(cur == field_sep_pos(lens, lens.len() as int));
            assert(cur == b.len() - 4);
        }
        if buffer[cur] != SEPARATOR {
            proof {
                assert forall|k2: int|
                    0 <= k2 <= lens.len() && seps_ok_upto(b, lens, k2) && b[field_sep_pos(
                        lens,
                        k2,
                    )] != SEPARATOR implies k2 == lens.len() by {
                    if k2 < lens.len() {
                        assert(b[field_sep_pos(lens, k2)] == SEPARATOR);
                    }
                }
            }
            return Err(ProtocolError::SeparatorExpected(cur));
        }
        proof {
            assert(seps_ok_upto(b, lens, lens.len() as int + 1)) by {
                assert forall|j: int| 0 <= j < lens.len() + 1 implies b[#[trigger] field_sep_pos(
                    lens,
                    j,
                )] == SEPARATOR by {
                    if j == lens.len() {
                        assert(b[field_sep_pos(lens, j)] == SEPARATOR);
                    }
                }
            }
        }
        Ok(frame)
    }
}

} // verus!
