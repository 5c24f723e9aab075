//! One field of a request or response: a fixed-width run of bytes together
//! with the codecs that read and write it (decimal, signed decimal,
//! hexadecimal, text, single character, raw byte).

use vstd::arithmetic::div_mod::{lemma_fundamental_div_mod, lemma_mod_bound};
use vstd::prelude::*;
use vstd::utf8::is_ascii_chars;

use crate::ascii::{all_ascii, ascii_bytes_to_string, chars_of_bytes};
use crate::protocol::{spec_car_hexa_to_value, spec_is_car_hexa};
use crate::st2150::ProtocolError;

verus! {

/// Is this byte a decimal digit (`'0'..='9'`)?
pub open spec fn is_digit(b: u8) -> bool {
    48 <= b <= 57
}

/// Every byte of the sequence is a decimal digit.
pub open spec fn all_digits(s: Seq<u8>) -> bool {
    forall|i: int| 0 <= i < s.len() ==> is_digit(s[i])
}

/// Every byte of the sequence is a hexadecimal digit.
pub open spec fn all_hexa(s: Seq<u8>) -> bool {
    forall|i: int| 0 <= i < s.len() ==> spec_is_car_hexa(s[i])
}

/// Number spelled by a sequence of decimal digit bytes (most significant
/// first). Only meaningful under `all_digits`.
pub open spec fn dec_value(s: Seq<u8>) -> int
    decreases s.len(),
{
    if s.len() == 0 {
        0
    } else {
        dec_value(s.drop_last()) * 10 + (s.last() - 48)
    }
}

/// Number spelled by a sequence of hexadecimal digit bytes (most significant
/// first). Only meaningful under `all_hexa`.
pub open spec fn hexa_value(s: Seq<u8>) -> int
    decreases s.len(),
{
    if s.len() == 0 {
        0
    } else {
        hexa_value(s.drop_last()) * 16 + spec_car_hexa_to_value(s.last())
    }
}

/// 10^w
pub open spec fn pow10(w: nat) -> nat
    decreases w,
{
    if w == 0 {
        1
    } else {
        10 * pow10((w - 1) as nat)
    }
}

/// 16^w
pub open spec fn pow16(w: nat) -> nat
    decreases w,
{
    if w == 0 {
        1
    } else {
        16 * pow16((w - 1) as nat)
    }
}

/// The `w` low decimal digits of `v`, zero padded, most significant first.
pub open spec fn dec_fixed(v: nat, w: nat) -> Seq<u8>
    decreases w,
{
    if w == 0 {
        Seq::empty()
    } else {
        dec_fixed(v / 10, (w - 1) as nat).push((48 + v % 10) as u8)
    }
}

/// Uppercase hexadecimal digit of a value below 16.
pub open spec fn hexa_digit(d: nat) -> u8 {
    if d < 10 {
        (48 + d) as u8
    } else {
        (55 + d) as u8
    }
}

/// The `w` low hexadecimal digits of `v`, zero padded, uppercase, most
/// significant first.
pub open spec fn hexa_fixed(v: nat, w: nat) -> Seq<u8>
    decreases w,
{
    if w == 0 {
        Seq::empty()
    } else {
        hexa_fixed(v / 16, (w - 1) as nat).push(hexa_digit(v % 16))
    }
}

/// Sign carried by the first byte of a signed decimal field.
pub open spec fn sign_of(s: Seq<u8>) -> int {
    if s.len() > 0 && s[0] == 45 {
        -1
    } else {
        1
    }
}

/// The digit bytes of a signed decimal field: everything after an optional
/// leading `'+'` or `'-'`.
pub open spec fn digits_part(s: Seq<u8>) -> Seq<u8> {
    if s.len() > 0 && (s[0] == 43 || s[0] == 45) {
        s.drop_first()
    } else {
        s
    }
}

/// Number spelled by a signed decimal field.
pub open spec fn signed_value(s: Seq<u8>) -> int {
    sign_of(s) * dec_value(digits_part(s))
}

/// A signed decimal field of `w` bytes: the sign, then `w - 1` zero-padded
/// digits of the magnitude.
pub open spec fn signed_fixed(v: int, w: nat) -> Seq<u8>
    recommends
        w >= 1,
{
    seq![if v < 0 { 45u8 } else { 43u8 }] + dec_fixed(
        if v < 0 {
            (-v) as nat
        } else {
            v as nat
        },
        (w - 1) as nat,
    )
}

/// Text of `s` laid out on `w` bytes: space padded on the right when shorter,
/// cut when longer.
pub open spec fn str_field(s: Seq<char>, w: nat) -> Seq<u8> {
    Seq::new(w, |i: int| if i < s.len() { s[i] as u8 } else { 32u8 })
}

/// Index of the first byte that is not a decimal digit (the length when every
/// byte is one).
pub open spec fn first_non_digit(s: Seq<u8>) -> int
    decreases s.len(),
{
    if s.len() == 0 {
        0
    } else if !is_digit(s[0]) {
        0
    } else {
        1 + first_non_digit(s.drop_first())
    }
}

/// Index of the first byte that is not a hexadecimal digit (the length when
/// every byte is one).
pub open spec fn first_non_hexa(s: Seq<u8>) -> int
    decreases s.len(),
{
    if s.len() == 0 {
        0
    } else if !spec_is_car_hexa(s[0]) {
        0
    } else {
        1 + first_non_hexa(s.drop_first())
    }
}

/// The result is an illegal-character error naming the field bytes `s` and
/// the byte at position `j` of them.
pub open spec fn illegal_char_err<T>(r: Result<T, ProtocolError>, s: Seq<u8>, j: int) -> bool {
    r matches Err(ProtocolError::IllegalFieldCharDecode(k, f, c)) && f@ == s && 0 <= j < s.len()
        && c == s[j]
}

/// The result is a conversion error naming the field bytes `s`.
pub open spec fn conversion_err<T>(r: Result<T, ProtocolError>, s: Seq<u8>) -> bool {
    r matches Err(ProtocolError::ErrFieldConversion(k, f)) && f@ == s
}

/// If the bytes before `i` are digits and the byte at `i` is not, then `i` is
/// the first non-digit.
pub proof fn lemma_first_non_digit(s: Seq<u8>, i: int)
    requires
        0 <= i < s.len(),
        !is_digit(s[i]),
        forall|l: int| 0 <= l < i ==> is_digit(s[l]),
    ensures
        first_non_digit(s) == i,
    decreases s.len(),
{
    if i > 0 {
        lemma_first_non_digit(s.drop_first(), i - 1);
    }
}

/// If the bytes before `i` are hexadecimal digits and the byte at `i` is not,
/// then `i` is the first that is none.
pub proof fn lemma_first_non_hexa(s: Seq<u8>, i: int)
    requires
        0 <= i < s.len(),
        !spec_is_car_hexa(s[i]),
        forall|l: int| 0 <= l < i ==> spec_is_car_hexa(s[l]),
    ensures
        first_non_hexa(s) == i,
    decreases s.len(),
{
    if i > 0 {
        lemma_first_non_hexa(s.drop_first(), i - 1);
    }
}

/// One separator-delimited field of a frame.
#[derive(Debug, PartialEq, Eq)]
pub struct Field {
    /// The raw bytes of the field
    data: Vec<u8>,
}

impl View for Field {
    type V = Seq<u8>;

    closed spec fn view(&self) -> Seq<u8> {
        self.data@
    }
}

impl Clone for Field {
    fn clone(&self) -> (r: Self)
        ensures
            r@ == self@,
    {
        Field { data: self.data.clone() }
    }
}

/// `dec_fixed` always yields `w` decimal digits.
pub proof fn lemma_dec_fixed_wf(v: nat, w: nat)
    ensures
        dec_fixed(v, w).len() == w,
        all_digits(dec_fixed(v, w)),
    decreases w,
{
    if w > 0 {
        lemma_dec_fixed_wf(v / 10, (w - 1) as nat);
        lemma_mod_bound(v as int, 10);
        assert forall|i: int| 0 <= i < w implies is_digit(dec_fixed(v, w)[i]) by {
            if i < w - 1 {
                assert(dec_fixed(v, w)[i] == dec_fixed(v / 10, (w - 1) as nat)[i]);
            }
        }
    }
}

/// Reading back the `w` fixed decimal digits of `v` gives `v`, as long as `v`
/// fits on `w` digits.
pub proof fn lemma_dec_fixed_value(v: nat, w: nat)
    requires
        v < pow10(w),
    ensures
        dec_value(dec_fixed(v, w)) == v,
    decreases w,
{
    if w == 0 {
        assert(v == 0);
    } else {
        lemma_fundamental_div_mod(v as int, 10);
        lemma_mod_bound(v as int, 10);
        assert(v / 10 < pow10((w - 1) as nat)) by {
            if v / 10 >= pow10((w - 1) as nat) {
                assert(v >= 10 * (v / 10)) by {
                    lemma_fundamental_div_mod(v as int, 10);
                }
                assert(10 * (v / 10) >= 10 * pow10((w - 1) as nat)) by (nonlinear_arith)
                    requires
                        v / 10 >= pow10((w - 1) as nat),
                ;
            }
        }
        lemma_dec_fixed_value(v / 10, (w - 1) as nat);
        let s = dec_fixed(v, w);
        assert(s.drop_last() =~= dec_fixed(v / 10, (w - 1) as nat));
        assert(s.last() == (48 + v % 10) as u8);
        assert(dec_value(s) == (v / 10) * 10 + v % 10);
    }
}

/// `hexa_fixed` always yields `w` uppercase hexadecimal digits.
pub proof fn lemma_hexa_fixed_wf(v: nat, w: nat)
    ensures
        hexa_fixed(v, w).len() == w,
        all_hexa(hexa_fixed(v, w)),
    decreases w,
{
    if w > 0 {
        lemma_hexa_fixed_wf(v / 16, (w - 1) as nat);
        lemma_mod_bound(v as int, 16);
        assert forall|i: int| 0 <= i < w implies spec_is_car_hexa(hexa_fixed(v, w)[i]) by {
            if i < w - 1 {
                assert(hexa_fixed(v, w)[i] == hexa_fixed(v / 16, (w - 1) as nat)[i]);
            }
        }
    }
}

/// Reading back the `w` fixed hexadecimal digits of `v` gives `v`, as long as
/// `v` fits on `w` digits.
pub proof fn lemma_hexa_fixed_value(v: nat, w: nat)
    requires
        v < pow16(w),
    ensures
        hexa_value(hexa_fixed(v, w)) == v,
    decreases w,
{
    if w == 0 {
        assert(v == 0);
    } else {
        lemma_fundamental_div_mod(v as int, 16);
        lemma_mod_bound(v as int, 16);
        assert(v / 16 < pow16((w - 1) as nat)) by {
            if v / 16 >= pow16((w - 1) as nat) {
                assert(v >= 16 * (v / 16)) by {
                    lemma_fundamental_div_mod(v as int, 16);
                }
                assert(16 * (v / 16) >= 16 * pow16((w - 1) as nat)) by (nonlinear_arith)
                    requires
                        v / 16 >= pow16((w - 1) as nat),
                ;
            }
        }
        lemma_hexa_fixed_value(v / 16, (w - 1) as nat);
        let s = hexa_fixed(v, w);
        assert(s.drop_last() =~= hexa_fixed(v / 16, (w - 1) as nat));
        assert(s.last() == hexa_digit((v % 16) as nat));
        assert(spec_car_hexa_to_value(hexa_digit((v % 16) as nat)) == v % 16);
        assert(hexa_value(s) == (v / 16) * 16 + v % 16);
    }
}

/// In a run of digits, the number spelled by a prefix never exceeds the
/// number spelled by the whole.
pub proof fn lemma_dec_value_prefix(s: Seq<u8>, i: int)
    requires
        all_digits(s),
        0 <= i <= s.len(),
    ensures
        dec_value(s.subrange(0, i)) <= dec_value(s),
        dec_value(s) >= 0,
    decreases s.len() - i,
{
    if i == s.len() {
        assert(s.subrange(0, i) =~= s);
        lemma_dec_value_nonneg(s);
    } else {
        lemma_dec_value_prefix(s, i + 1);
        let p = s.subrange(0, i + 1);
        assert(p.drop_last() =~= s.subrange(0, i));
        assert(dec_value(p) == dec_value(s.subrange(0, i)) * 10 + (s[i] - 48));
        lemma_dec_value_nonneg(s.subrange(0, i));
        assert(dec_value(s.subrange(0, i)) * 10 >= dec_value(s.subrange(0, i))) by (nonlinear_arith)
            requires
                dec_value(s.subrange(0, i)) >= 0,
        ;
    }
}

/// The number spelled by a run of digits is never negative.
pub proof fn lemma_dec_value_nonneg(s: Seq<u8>)
    requires
        all_digits(s),
    ensures
        dec_value(s) >= 0,
    decreases s.len(),
{
    if s.len() > 0 {
        assert(all_digits(s.drop_last()));
        lemma_dec_value_nonneg(s.drop_last());
        assert(dec_value(s.drop_last()) * 10 >= 0) by (nonlinear_arith)
            requires
                dec_value(s.drop_last()) >= 0,
        ;
    }
}

/// Same for hexadecimal digits.
pub proof fn lemma_hexa_value_nonneg(s: Seq<u8>)
    ensures
        hexa_value(s) >= 0,
    decreases s.len(),
{
    if s.len() > 0 {
        lemma_hexa_value_nonneg(s.drop_last());
        assert(hexa_value(s.drop_last()) * 16 >= 0) by (nonlinear_arith)
            requires
                hexa_value(s.drop_last()) >= 0,
        ;
    }
}

/// In a run of hexadecimal digits, a prefix never spells more than the whole.
pub proof fn lemma_hexa_value_prefix(s: Seq<u8>, i: int)
    requires
        0 <= i <= s.len(),
    ensures
        hexa_value(s.subrange(0, i)) <= hexa_value(s),
    decreases s.len() - i,
{
    if i == s.len() {
        assert(s.subrange(0, i) =~= s);
    } else {
        lemma_hexa_value_prefix(s, i + 1);
        let p = s.subrange(0, i + 1);
        assert(p.drop_last() =~= s.subrange(0, i));
        lemma_hexa_value_nonneg(s.subrange(0, i));
        assert(hexa_value(s.subrange(0, i)) * 16 >= hexa_value(s.subrange(0, i))) by (nonlinear_arith)
            requires
                hexa_value(s.subrange(0, i)) >= 0,
        ;
    }
}

/// Fixed-width decimal digits, least significant last.
fn encode_dec_digits(value: u64, width: usize) -> (r: Vec<u8>)
    ensures
        r@ == dec_fixed(value as nat, width as nat),
        r@.len() == width,
    decreases width,
{
    proof {
        lemma_dec_fixed_wf(value as nat, width as nat);
    }
    if width == 0 {
        Vec::new()
    } else {
        let mut r = encode_dec_digits(value / 10, width - 1);
        r.push(48 + (value % 10) as u8);
        r
    }
}

/// Fixed-width uppercase hexadecimal digits, least significant last.
fn encode_hexa_digits(value: u64, width: usize) -> (r: Vec<u8>)
    ensures
        r@ == hexa_fixed(value as nat, width as nat),
        r@.len() == width,
    decreases width,
{
    proof {
        lemma_hexa_fixed_wf(value as nat, width as nat);
    }
    if width == 0 {
        Vec::new()
    } else {
        let mut r = encode_hexa_digits(value / 16, width - 1);
        let d = (value % 16) as u8;
        if d < 10 {
            r.push(48 + d);
        } else {
            r.push(55 + d);
        }
        r
    }
}

impl Field {
    /// Field holding a copy of the given bytes.
    pub fn new(field: &[u8]) -> (r: Self)
        ensures
            r@ == field@,
    {
        let mut data: Vec<u8> = Vec::new();
        let mut i: usize = 0;
        while i < field.len()
            invariant
                0 <= i <= field@.len(),
                data@ == field@.subrange(0, i as int),
            decreases field@.len() - i,
        {
            data.push(field[i]);
            proof {
                assert(data@ =~= field@.subrange(0, i + 1));
            }
            i = i + 1;
        }
        proof {
            assert(data@ =~= field@);
        }
        Field { data }
    }

    /// One-byte field holding a raw value (typically ACK or NACK).
    pub fn encode_binary(value: u8) -> (r: Self)
        ensures
            r@ =~= seq![value],
    {
        let mut data: Vec<u8> = Vec::new();
        data.push(value);
        Field { data }
    }

    /// The raw value of a one-byte field; any other length is a conversion
    /// error.
    pub fn decode_binary(&self) -> (r: Result<u8, ProtocolError>)
        ensures
            self@.len() == 1 ==> r == Ok::<u8, ProtocolError>(self@[0]),
            self@.len() != 1 ==> (r matches Err(ProtocolError::ErrFieldConversion(k, f))
                && f@ == self@ && k@ == "binary"@),
    {
        if self.data.len() == 1 {
            Ok(self.data[0])
        } else {
            Err(ProtocolError::ErrFieldConversion(String::from_str("binary"), self.clone()))
        }
    }

    /// Unsigned decimal field: `value` on `width` zero-padded digits.
    /// The value must fit on `width` digits.
    pub fn encode_number(value: u64, width: usize) -> (r: Self)
        requires
            width >= 1,
            (value as nat) < pow10(width as nat),
        ensures
            r@ == dec_fixed(value as nat, width as nat),
            r@.len() == width,
            all_digits(r@),
            dec_value(r@) == value,
    {
        proof {
            lemma_dec_fixed_wf(value as nat, width as nat);
            lemma_dec_fixed_value(value as nat, width as nat);
        }
        Field { data: encode_dec_digits(value, width) }
    }

    /// Number spelled by a field of decimal digits.
    /// Errors: a byte that is no digit (the first one is named), or a value
    /// over `u64::MAX`.
    pub fn decode_number(&self) -> (r: Result<u64, ProtocolError>)
        ensures
            all_digits(self@) && dec_value(self@) <= u64::MAX ==> r == Ok::<u64, ProtocolError>(
                dec_value(self@) as u64,
            ),
            !all_digits(self@) ==> illegal_char_err(r, self@, first_non_digit(self@)),
            all_digits(self@) && dec_value(self@) > u64::MAX ==> conversion_err(r, self@),
    {
        let s = &self.data;
        let mut i: usize = 0;
        while i < s.len()
            invariant
                s@ == self@,
                0 <= i <= s@.len(),
                forall|l: int| 0 <= l < i ==> is_digit(s@[l]),
            decreases s@.len() - i,
        {
            let b = s[i];
            if b < 48 || b > 57 {
                proof {
                    lemma_first_non_digit(s@, i as int);
                }
                return Err(ProtocolError::IllegalFieldCharDecode(
                    String::from_str("number"),
                    self.clone(),
                    b,
                ));
            }
            i = i + 1;
        }
        let mut ret: u64 = 0;
        let mut j: usize = 0;
        while j < s.len()
            invariant
                s@ == self@,
                0 <= j <= s@.len(),
                all_digits(s@),
                ret == dec_value(s@.subrange(0, j as int)),
            decreases s@.len() - j,
        {
            let d = s[j] - 48;
            proof {
                assert(s@.subrange(0, j + 1).drop_last() =~= s@.subrange(0, j as int));
            }
            if ret > (u64::MAX - d as u64) / 10 {
                proof {
                    let p = s@.subrange(0, j + 1);
                    assert(dec_value(p) == ret * 10 + d);
                    assert(ret * 10 + d > u64::MAX) by (nonlinear_arith)
                        requires
                            ret > (u64::MAX - d as u64) / 10,
                            0 <= d <= 9,
                            ret <= u64::MAX,
                    ;
                    lemma_dec_value_prefix(s@, j + 1);
                }
                return Err(ProtocolError::ErrFieldConversion(
                    String::from_str("number"),
                    self.clone(),
                ));
            }
            ret = ret * 10 + d as u64;
            j = j + 1;
        }
        proof {
            assert(s@.subrange(0, s@.len() as int) =~= s@);
        }
        Ok(ret)
    }

    /// `decode_number` narrowed to `u8`.
    pub fn decode_number_u8(&self) -> (r: Result<u8, ProtocolError>)
        ensures
            all_digits(self@) && dec_value(self@) <= u8::MAX ==> r == Ok::<u8, ProtocolError>(
                dec_value(self@) as u8,
            ),
            !all_digits(self@) ==> illegal_char_err(r, self@, first_non_digit(self@)),
            all_digits(self@) && dec_value(self@) > u8::MAX ==> conversion_err(r, self@),
    {
        proof {
            if all_digits(self@) {
                lemma_dec_value_nonneg(self@);
            }
        }
        match self.decode_number() {
            Ok(v) => if v <= u8::MAX as u64 {
                Ok(v as u8)
            } else {
                Err(ProtocolError::ErrFieldConversion(String::from_str("number"), self.clone()))
            },
            Err(e) => Err(e),
        }
    }

    /// `decode_number` narrowed to `u16`.
    pub fn decode_number_u16(&self) -> (r: Result<u16, ProtocolError>)
        ensures
            all_digits(self@) && dec_value(self@) <= u16::MAX ==> r == Ok::<u16, ProtocolError>(
                dec_value(self@) as u16,
            ),
            !all_digits(self@) ==> illegal_char_err(r, self@, first_non_digit(self@)),
            all_digits(self@) && dec_value(self@) > u16::MAX ==> conversion_err(r, self@),
    {
        proof {
            if all_digits(self@) {
                lemma_dec_value_nonneg(self@);
            }
        }
        match self.decode_number() {
            Ok(v) => if v <= u16::MAX as u64 {
                Ok(v as u16)
            } else {
                Err(ProtocolError::ErrFieldConversion(String::from_str("number"), self.clone()))
            },
            Err(e) => Err(e),
        }
    }

    /// `decode_number` narrowed to `u32`.
    pub fn decode_number_u32(&self) -> (r: Result<u32, ProtocolError>)
        ensures
            all_digits(self@) && dec_value(self@) <= u32::MAX ==> r == Ok::<u32, ProtocolError>(
                dec_value(self@) as u32,
            ),
            !all_digits(self@) ==> illegal_char_err(r, self@, first_non_digit(self@)),
            all_digits(self@) && dec_value(self@) > u32::MAX ==> conversion_err(r, self@),
    {
        proof {
            if all_digits(self@) {
                lemma_dec_value_nonneg(self@);
            }
        }
        match self.decode_number() {
            Ok(v) => if v <= u32::MAX as u64 {
                Ok(v as u32)
            } else {
                Err(ProtocolError::ErrFieldConversion(String::from_str("number"), self.clone()))
            },
            Err(e) => Err(e),
        }
    }

    /// Signed decimal field: a `'+'` or `'-'`, then `value`'s magnitude on
    /// `width - 1` zero-padded digits. The magnitude must fit there.
    pub fn encode_signed_number(value: i64, width: usize) -> (r: Self)
        requires
            width >= 2,
            value >= 0 ==> (value as nat) < pow10((width - 1) as nat),
            value < 0 ==> ((-value) as nat) < pow10((width - 1) as nat),
        ensures
            r@ == signed_fixed(value as int, width as nat),
            r@.len() == width,
            all_digits(digits_part(r@)),
            signed_value(r@) == value,
    {
        let mag: u64 = if value < 0 {
            ((-(value + 1)) as u64) + 1
        } else {
            value as u64
        };
        let mut data: Vec<u8> = Vec::new();
        if value < 0 {
            data.push(45);
        } else {
            data.push(43);
        }
        let mut digits = encode_dec_digits(mag, width - 1);
        data.append(&mut digits);
        proof {
            let s = data@;
            assert(s =~= signed_fixed(value as int, width as nat));
            assert(digits_part(s) =~= dec_fixed(mag as nat, (width - 1) as nat));
            lemma_dec_fixed_wf(mag as nat, (width - 1) as nat);
            lemma_dec_fixed_value(mag as nat, (width - 1) as nat);
        }
        Field { data }
    }

    /// Number spelled by a signed decimal field (optional leading sign, then
    /// digits). Errors: an empty field, a byte after the sign that is no
    /// digit, or a magnitude over `i64::MAX`.
    pub fn decode_signed_number(&self) -> (r: Result<i64, ProtocolError>)
        ensures
            self@.len() == 0 ==> conversion_err(r, self@),
            self@.len() >= 1 && all_digits(digits_part(self@)) && dec_value(digits_part(self@))
                <= i64::MAX ==> r == Ok::<i64, ProtocolError>(signed_value(self@) as i64),
            self@.len() >= 1 && !all_digits(digits_part(self@)) ==> illegal_char_err(
                r,
                self@,
                self@.len() - digits_part(self@).len() + first_non_digit(digits_part(self@)),
            ),
            self@.len() >= 1 && all_digits(digits_part(self@)) && dec_value(digits_part(self@))
                > i64::MAX ==> conversion_err(r, self@),
    {
        let s = &self.data;
        if s.len() == 0 {
            return Err(ProtocolError::ErrFieldConversion(
                String::from_str("signed number"),
                self.clone(),
            ));
        }
        let first = s[0];
        let start: usize = if first == 43 || first == 45 {
            1
        } else {
            0
        };
        let negative = first == 45;
        proof {
            assert(digits_part(s@) =~= s@.subrange(start as int, s@.len() as int));
        }
        let ghost digits = digits_part(s@);
        let mut i: usize = start;
        while i < s.len()
            invariant
                s@ == self@,
                digits == digits_part(s@),
                start <= 1,
                digits == s@.subrange(start as int, s@.len() as int),
                start <= i <= s@.len(),
                forall|l: int| start <= l < i ==> is_digit(s@[l]),
            decreases s@.len() - i,
        {
            let b = s[i];
            if b < 48 || b > 57 {
                proof {
                    assert(digits[i - start] == s@[i as int]);
                    assert(forall|l: int|
                        0 <= l < i - start ==> digits[l] == s@[l + start] && is_digit(digits[l]));
                    lemma_first_non_digit(digits, i - start);
                }
                return Err(ProtocolError::IllegalFieldCharDecode(
                    String::from_str("signed number"),
                    self.clone(),
                    b,
                ));
            }
            i = i + 1;
        }
        proof {
            assert(forall|l: int| 0 <= l < digits.len() ==> digits[l] == s@[l + start]);
            assert(all_digits(digits));
        }
        let mut ret: u64 = 0;
        let mut j: usize = start;
        while j < s.len()
            invariant
                s@ == self@,
                digits == digits_part(s@),
                start <= 1,
                digits == s@.subrange(start as int, s@.len() as int),
                all_digits(digits),
                start <= j <= s@.len(),
                ret == dec_value(digits.subrange(0, j - start)),
                ret <= i64::MAX,
            decreases s@.len() - j,
        {
            proof {
                assert(digits.subrange(0, j - start + 1).drop_last() =~= digits.subrange(
                    0,
                    j - start,
                ));
                assert(digits[j - start] == s@[j as int]);
            }
            let d = s[j] - 48;
            if ret > (i64::MAX as u64 - d as u64) / 10 {
                proof {
                    let p = digits.subrange(0, j - start + 1);
                    assert(dec_value(p) == ret * 10 + d);
                    assert(ret * 10 + d > i64::MAX) by (nonlinear_arith)
                        requires
                            ret > (i64::MAX as u64 - d as u64) / 10,
                            0 <= d <= 9,
                            ret <= u64::MAX,
                    ;
                    lemma_dec_value_prefix(digits, j - start + 1);
                }
                return Err(ProtocolError::ErrFieldConversion(
                    String::from_str("signed number"),
                    self.clone(),
                ));
            }
            ret = ret * 10 + d as u64;
            j = j + 1;
        }
        proof {
            assert(digits.subrange(0, digits.len() as int) =~= digits);
        }
        if negative {
            Ok(-(ret as i64))
        } else {
            Ok(ret as i64)
        }
    }

    /// `decode_signed_number` narrowed to `i16`.
    pub fn decode_signed_number_i16(&self) -> (r: Result<i16, ProtocolError>)
        ensures
            self@.len() == 0 ==> conversion_err(r, self@),
            self@.len() >= 1 && all_digits(digits_part(self@)) && i16::MIN <= signed_value(self@)
                <= i16::MAX ==> r == Ok::<i16, ProtocolError>(signed_value(self@) as i16),
            self@.len() >= 1 && !all_digits(digits_part(self@)) ==> illegal_char_err(
                r,
                self@,
                self@.len() - digits_part(self@).len() + first_non_digit(digits_part(self@)),
            ),
            self@.len() >= 1 && all_digits(digits_part(self@)) && !(i16::MIN <= signed_value(
                self@,
            ) <= i16::MAX) ==> conversion_err(r, self@),
    {
        proof {
            if all_digits(digits_part(self@)) {
                lemma_dec_value_nonneg(digits_part(self@));
            }
        }
        match self.decode_signed_number() {
            Ok(v) => if i16::MIN as i64 <= v && v <= i16::MAX as i64 {
                Ok(v as i16)
            } else {
                Err(ProtocolError::ErrFieldConversion(
                    String::from_str("signed number"),
                    self.clone(),
                ))
            },
            Err(e) => Err(e),
        }
    }

    /// Hexadecimal field: `value` on `width` zero-padded uppercase digits.
    /// The value must fit on `width` digits.
    pub fn encode_hexa(value: u64, width: usize) -> (r: Self)
        requires
            width >= 1,
            (value as nat) < pow16(width as nat),
        ensures
            r@ == hexa_fixed(value as nat, width as nat),
            r@.len() == width,
            all_hexa(r@),
            hexa_value(r@) == value,
    {
        proof {
            lemma_hexa_fixed_wf(value as nat, width as nat);
            lemma_hexa_fixed_value(value as nat, width as nat);
        }
        Field { data: encode_hexa_digits(value, width) }
    }

    /// Number spelled by a field of hexadecimal digits (either case).
    /// Errors: a byte that is no hexadecimal digit, or a value over
    /// `u64::MAX`.
    pub fn decode_hexa(&self) -> (r: Result<u64, ProtocolError>)
        ensures
            all_hexa(self@) && hexa_value(self@) <= u64::MAX ==> r == Ok::<u64, ProtocolError>(
                hexa_value(self@) as u64,
            ),
            !all_hexa(self@) ==> illegal_char_err(r, self@, first_non_hexa(self@)),
            all_hexa(self@) && hexa_value(self@) > u64::MAX ==> conversion_err(r, self@),
    {
        let s = &self.data;
        let mut i: usize = 0;
        while i < s.len()
            invariant
                s@ == self@,
                0 <= i <= s@.len(),
                forall|l: int| 0 <= l < i ==> spec_is_car_hexa(s@[l]),
            decreases s@.len() - i,
        {
            let b = s[i];
            if !crate::protocol::is_car_hexa(b) {
                proof {
                    lemma_first_non_hexa(s@, i as int);
                }
                return Err(ProtocolError::IllegalFieldCharDecode(
                    String::from_str("hexa"),
                    self.clone(),
                    b,
                ));
            }
            i = i + 1;
        }
        let mut ret: u64 = 0;
        let mut j: usize = 0;
        while j < s.len()
            invariant
                s@ == self@,
                0 <= j <= s@.len(),
                all_hexa(s@),
                ret == hexa_value(s@.subrange(0, j as int)),
            decreases s@.len() - j,
        {
            let d = crate::protocol::car_hexa_to_value(s[j]);
            proof {
                assert(s@.subrange(0, j + 1).drop_last() =~= s@.subrange(0, j as int));
            }
            if ret > (u64::MAX - d as u64) / 16 {
                proof {
                    let p = s@.subrange(0, j + 1);
                    assert(hexa_value(p) == ret * 16 + d);
                    assert(ret * 16 + d > u64::MAX) by (nonlinear_arith)
                        requires
                            ret > (u64::MAX - d as u64) / 16,
                            0 <= d <= 15,
                            ret <= u64::MAX,
                    ;
                    lemma_hexa_value_prefix(s@, j + 1);
                }
                return Err(ProtocolError::ErrFieldConversion(
                    String::from_str("hexa"),
                    self.clone(),
                ));
            }
            ret = ret * 16 + d as u64;
            j = j + 1;
        }
        proof {
            assert(s@.subrange(0, s@.len() as int) =~= s@);
        }
        Ok(ret)
    }

    /// `decode_hexa` narrowed to `u8`.
    pub fn decode_hexa_u8(&self) -> (r: Result<u8, ProtocolError>)
        ensures
            all_hexa(self@) && hexa_value(self@) <= u8::MAX ==> r == Ok::<u8, ProtocolError>(
                hexa_value(self@) as u8,
            ),
            !all_hexa(self@) ==> illegal_char_err(r, self@, first_non_hexa(self@)),
            all_hexa(self@) && hexa_value(self@) > u8::MAX ==> conversion_err(r, self@),
    {
        proof {
            lemma_hexa_value_nonneg(self@);
        }
        match self.decode_hexa() {
            Ok(v) => if v <= u8::MAX as u64 {
                Ok(v as u8)
            } else {
                Err(ProtocolError::ErrFieldConversion(String::from_str("hexa"), self.clone()))
            },
            Err(e) => Err(e),
        }
    }

    /// `decode_hexa` narrowed to `u16`.
    pub fn decode_hexa_u16(&self) -> (r: Result<u16, ProtocolError>)
        ensures
            all_hexa(self@) && hexa_value(self@) <= u16::MAX ==> r == Ok::<u16, ProtocolError>(
                hexa_value(self@) as u16,
            ),
            !all_hexa(self@) ==> illegal_char_err(r, self@, first_non_hexa(self@)),
            all_hexa(self@) && hexa_value(self@) > u16::MAX ==> conversion_err(r, self@),
    {
        proof {
            lemma_hexa_value_nonneg(self@);
        }
        match self.decode_hexa() {
            Ok(v) => if v <= u16::MAX as u64 {
                Ok(v as u16)
            } else {
                Err(ProtocolError::ErrFieldConversion(String::from_str("hexa"), self.clone()))
            },
            Err(e) => Err(e),
        }
    }

    /// Text field: `value` on `width` bytes, space padded on the right when
    /// shorter, cut when longer. The text must be ASCII, as the whole wire
    /// format is.
    pub fn encode_str(value: &str, width: usize) -> (r: Self)
        requires
            vstd::string::is_ascii(value),
        ensures
            r@ == str_field(value@, width as nat),
            r@.len() == width,
    {
        let value_len = value.unicode_len();
        let mut data: Vec<u8> = Vec::new();
        let mut i: usize = 0;
        while i < width
            invariant
                vstd::string::is_ascii(value),
                value_len == value@.len(),
                0 <= i <= width,
                data@.len() == i,
                forall|l: int| 0 <= l < i ==> data@[l] == str_field(value@, width as nat)[l],
            decreases width - i,
        {
            if i < value_len {
                data.push(value.get_ascii(i));
            } else {
                data.push(32);
            }
            i = i + 1;
        }
        proof {
            assert(data@ =~= str_field(value@, width as nat));
        }
        Field { data }
    }

    /// Text spelled by the field: succeeds exactly on valid UTF-8 and
    /// decodes it to its characters.
    pub fn decode_str(&self) -> (r: Result<String, ProtocolError>)
        ensures
            vstd::utf8::valid_utf8(self@) ==> (r matches Ok(t) && t@ == vstd::utf8::decode_utf8(
                self@,
            )),
            !vstd::utf8::valid_utf8(self@) ==> conversion_err(r, self@),
    {
        match crate::ascii::utf8_bytes_to_string(self.data.as_slice()) {
            Some(t) => Ok(t),
            None => Err(ProtocolError::ErrFieldConversion(
                String::from_str("string"),
                self.clone(),
            )),
        }
    }

    /// One-byte field holding a printable ASCII character (0x20 to 0x7F).
    pub fn encode_char(car: char) -> (r: Self)
        requires
            32 <= (car as u32) <= 127,
        ensures
            r@ =~= seq![car as u8],
    {
        Field::encode_binary(car as u8)
    }

    /// Character spelled by a one-byte field. Errors: a length other than
    /// one, or a byte outside printable ASCII (0x20 to 0x7F).
    pub fn decode_char(&self) -> (r: Result<char, ProtocolError>)
        ensures
            self@.len() == 1 && 32 <= self@[0] <= 127 ==> r == Ok::<char, ProtocolError>(
                self@[0] as char,
            ),
            self@.len() != 1 ==> conversion_err(r, self@),
            self@.len() == 1 && !(32 <= self@[0] <= 127) ==> illegal_char_err(r, self@, 0),
    {
        if self.data.len() != 1 {
            return Err(ProtocolError::ErrFieldConversion(String::from_str("char"), self.clone()));
        }
        let b = self.data[0];
        if b < 32 {
            return Err(ProtocolError::IllegalFieldCharDecode(
                String::from_str("char"),
                self.clone(),
                b,
            ));
        }
        if b > 127 {
            return Err(ProtocolError::IllegalFieldCharDecode(
                String::from_str("char"),
                self.clone(),
                b,
            ));
        }
        Ok(b as char)
    }

    /// A response field holds a raw value outside its domain: error naming
    /// the field, the value's meaning and the admissible range.
    pub fn check_binary_domain(name: &str, value: u8, min: u8, max: u8) -> (r: Result<
        (),
        ProtocolError,
    >)
        ensures
            min <= value <= max <==> r is Ok,
            !(min <= value <= max) ==> (r matches Err(ProtocolError::IllegalRepFieldValue(f, n, d))
                && f@ == seq![value] && n@ == name@),
    {
        if min <= value && value <= max {
            Ok(())
        } else {
            let mut domain = dec_string(min as u64);
            domain.append("..=");
            let max_str = dec_string(max as u64);
            domain.append(max_str.as_str());
            Err(ProtocolError::IllegalRepFieldValue(
                Field::encode_binary(value),
                String::from_str(name),
                domain,
            ))
        }
    }

    /// The raw bytes of the field, as they go on the wire.
    pub fn to_frame(&self) -> (r: Vec<u8>)
        ensures
            r@ == self@,
    {
        self.data.clone()
    }
}

/// The decimal digits of `v`, without padding (one digit for zero).
pub open spec fn dec_min(v: nat) -> Seq<u8>
    decreases v,
{
    if v < 10 {
        seq![(48 + v) as u8]
    } else {
        dec_min(v / 10).push((48 + v % 10) as u8)
    }
}

/// `dec_min` yields decimal digits.
pub proof fn lemma_dec_min_digits(v: nat)
    ensures
        dec_min(v).len() >= 1,
        all_digits(dec_min(v)),
    decreases v,
{
    if v >= 10 {
        lemma_mod_bound(v as int, 10);
        lemma_dec_min_digits(v / 10);
        assert forall|i: int| 0 <= i < dec_min(v).len() implies is_digit(dec_min(v)[i]) by {
            if i < dec_min(v).len() - 1 {
                assert(dec_min(v)[i] == dec_min(v / 10)[i]);
            }
        }
    }
}

/// A value below `10^w` spells at most `w` digits.
pub proof fn lemma_dec_min_len(v: nat, w: nat)
    requires
        w >= 1,
        v < pow10(w),
    ensures
        1 <= dec_min(v).len() <= w,
    decreases w,
{
    if v < 10 {
    } else {
        assert(w >= 2) by {
            if w == 1 {
                assert(pow10(1) == 10 * pow10(0));
            }
        }
        assert(v / 10 < pow10((w - 1) as nat)) by {
            vstd::arithmetic::div_mod::lemma_fundamental_div_mod(v as int, 10);
            if v / 10 >= pow10((w - 1) as nat) {
                assert(10 * (v / 10) >= 10 * pow10((w - 1) as nat)) by (nonlinear_arith)
                    requires
                        v / 10 >= pow10((w - 1) as nat),
                ;
            }
        }
        lemma_dec_min_len(v / 10, (w - 1) as nat);
    }
}

/// Digit bytes of `v`, least significant last, without padding.
fn dec_min_digits(v: u64) -> (r: Vec<u8>)
    ensures
        r@ == dec_min(v as nat),
    decreases v,
{
    if v < 10 {
        let mut r: Vec<u8> = Vec::new();
        r.push(48 + v as u8);
        proof {
            assert(r@ =~= dec_min(v as nat));
        }
        r
    } else {
        let mut r = dec_min_digits(v / 10);
        r.push(48 + (v % 10) as u8);
        r
    }
}

/// Decimal text of `v`, without padding.
pub fn dec_string(v: u64) -> (r: String)
    ensures
        r@ == chars_of_bytes(dec_min(v as nat)),
        r@.len() >= 1,
{
    let digits = dec_min_digits(v);
    proof {
        lemma_dec_min_digits(v as nat);
    }
    ascii_bytes_to_string(digits.as_slice())
}

/// Law: an unsigned decimal field of `w` digits decodes back to the value it
/// was encoded from, for every value that fits on `w` digits.
pub proof fn lemma_number_round_trip(v: nat, w: nat)
    requires
        v < pow10(w),
    ensures
        dec_fixed(v, w).len() == w,
        all_digits(dec_fixed(v, w)),
        dec_value(dec_fixed(v, w)) == v,
{
    lemma_dec_fixed_wf(v, w);
    lemma_dec_fixed_value(v, w);
}

/// Law: a hexadecimal field of `w` digits decodes back to the value it was
/// encoded from, for every value that fits on `w` digits.
pub proof fn lemma_hexa_round_trip(v: nat, w: nat)
    requires
        v < pow16(w),
    ensures
        hexa_fixed(v, w).len() == w,
        all_hexa(hexa_fixed(v, w)),
        hexa_value(hexa_fixed(v, w)) == v,
{
    lemma_hexa_fixed_wf(v, w);
    lemma_hexa_fixed_value(v, w);
}

/// Law: a signed decimal field of `w` bytes decodes back to the value it was
/// encoded from, for every value whose magnitude fits on `w - 1` digits.
pub proof fn lemma_signed_round_trip(v: int, w: nat)
    requires
        w >= 2,
        v >= 0 ==> v < pow10((w - 1) as nat),
        v < 0 ==> -v < pow10((w - 1) as nat),
    ensures
        signed_fixed(v, w).len() == w,
        all_digits(digits_part(signed_fixed(v, w))),
        signed_value(signed_fixed(v, w)) == v,
{
    let mag: nat = if v < 0 {
        (-v) as nat
    } else {
        v as nat
    };
    lemma_dec_fixed_wf(mag, (w - 1) as nat);
    lemma_dec_fixed_value(mag, (w - 1) as nat);
    let s = signed_fixed(v, w);
    assert(digits_part(s) =~= dec_fixed(mag, (w - 1) as nat));
}

/// Law: a text field of exactly the text's width decodes back to the text;
/// a wider field decodes to the text followed by spaces. (The encoder takes
/// ASCII text, the wire format's alphabet; the decoder accepts any UTF-8.)
pub proof fn lemma_str_round_trip(s: Seq<char>, w: nat)
    requires
        is_ascii_chars(s),
        s.len() <= w,
    ensures
        all_ascii(str_field(s, w)),
        vstd::utf8::valid_utf8(str_field(s, w)),
        vstd::utf8::decode_utf8(str_field(s, w)) =~= s + Seq::new(
            (w - s.len()) as nat,
            |i: int| ' ',
        ),
        chars_of_bytes(str_field(s, w)) =~= s + Seq::new((w - s.len()) as nat, |i: int| ' '),
{
    assert forall|i: int| 0 <= i < w implies str_field(s, w)[i] < 128 by {
        if i < s.len() {
            assert('\0' <= s[i] <= '\u{7f}');
        }
    }
    crate::ascii::lemma_ascii_decodes_itself(str_field(s, w));
}

/// Law: a printable ASCII character encoded as a one-byte field decodes back
/// to itself.
pub proof fn lemma_char_round_trip(c: char)
    requires
        32 <= (c as u32) <= 127,
    ensures
        32 <= (c as u8) <= 127,
        ((c as u8) as char) == c,
{
}

} // verus!
