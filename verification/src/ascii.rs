//! Conversions between ASCII byte sequences and `String`s.
//!
//! The whole wire format of the protocol is 7-bit ASCII, so every textual
//! value travels as one byte per character.

use vstd::prelude::*;

verus! {

/// Every byte of the sequence is 7-bit ASCII.
pub open spec fn all_ascii(s: Seq<u8>) -> bool {
    forall|i: int| 0 <= i < s.len() ==> s[i] < 128
}

/// The characters spelled by a sequence of ASCII bytes.
pub open spec fn chars_of_bytes(s: Seq<u8>) -> Seq<char> {
    Seq::new(s.len(), |i: int| s[i] as char)
}

/// The text without its trailing spaces.
pub open spec fn trim_end_spaces(s: Seq<char>) -> Seq<char>
    decreases s.len(),
{
    if s.len() > 0 && s.last() == ' ' {
        trim_end_spaces(s.drop_last())
    } else {
        s
    }
}

/// The text without its leading spaces.
pub open spec fn trim_start_spaces(s: Seq<char>) -> Seq<char>
    decreases s.len(),
{
    if s.len() > 0 && s.first() == ' ' {
        trim_start_spaces(s.drop_first())
    } else {
        s
    }
}

/// The text without its leading and trailing spaces.
pub open spec fn trim_spaces(s: Seq<char>) -> Seq<char> {
    trim_start_spaces(trim_end_spaces(s))
}

/// If everything from `e` on is a space and the character before `e` is not,
/// trimming the end cuts exactly at `e`.
pub proof fn lemma_trim_end_at(s: Seq<char>, e: int)
    requires
        0 <= e <= s.len(),
        forall|j: int| e <= j < s.len() ==> s[j] == ' ',
        e > 0 ==> s[e - 1] != ' ',
    ensures
        trim_end_spaces(s) == s.subrange(0, e),
    decreases s.len(),
{
    if e < s.len() {
        assert(s.last() == ' ');
        assert(s.drop_last() =~= s.subrange(0, s.len() - 1));
        lemma_trim_end_at(s.drop_last(), e);
        assert(s.drop_last().subrange(0, e) =~= s.subrange(0, e));
    } else {
        if s.len() > 0 {
            assert(s.last() != ' ');
        }
        assert(s.subrange(0, e) =~= s);
    }
}

/// If everything before `b` is a space and the character at `b` is not,
/// trimming the start cuts exactly at `b`.
pub proof fn lemma_trim_start_at(s: Seq<char>, b: int)
    requires
        0 <= b <= s.len(),
        forall|j: int| 0 <= j < b ==> s[j] == ' ',
        b < s.len() ==> s[b] != ' ',
    ensures
        trim_start_spaces(s) == s.subrange(b, s.len() as int),
    decreases s.len(),
{
    if b > 0 {
        assert(s.first() == ' ');
        lemma_trim_start_at(s.drop_first(), b - 1);
        assert(s.drop_first().subrange(b - 1, s.drop_first().len() as int) =~= s.subrange(
            b,
            s.len() as int,
        ));
    } else {
        if s.len() > 0 && s.first() == ' ' {
            assert(false);
        }
        assert(s.subrange(0, s.len() as int) =~= s);
    }
}

/// The text without its trailing spaces.
pub fn trim_end_str(s: &str) -> (r: String)
    ensures
        r@ == trim_end_spaces(s@),
{
    let len = s.unicode_len();
    let mut e: usize = len;
    while e > 0
        invariant_except_break
            len == s@.len(),
            0 <= e <= len,
            forall|j: int| e <= j < len ==> s@[j] == ' ',
        ensures
            0 <= e <= len,
            forall|j: int| e <= j < len ==> s@[j] == ' ',
            e > 0 ==> s@[e - 1] != ' ',
        decreases e,
    {
        if s.get_char(e - 1) != ' ' {
            break ;
        }
        e = e - 1;
    }
    proof {
        lemma_trim_end_at(s@, e as int);
    }
    String::from_str(s.substring_char(0, e))
}

/// The text without its leading and trailing spaces.
pub fn trim_str(s: &str) -> (r: String)
    ensures
        r@ == trim_spaces(s@),
{
    let len = s.unicode_len();
    let mut e: usize = len;
    while e > 0
        invariant_except_break
            len == s@.len(),
            0 <= e <= len,
            forall|j: int| e <= j < len ==> s@[j] == ' ',
        ensures
            0 <= e <= len,
            forall|j: int| e <= j < len ==> s@[j] == ' ',
            e > 0 ==> s@[e - 1] != ' ',
        decreases e,
    {
        if s.get_char(e - 1) != ' ' {
            break ;
        }
        e = e - 1;
    }
    let mut b: usize = 0;
    while b < e
        invariant_except_break
            len == s@.len(),
            0 <= b <= e <= len,
            forall|j: int| 0 <= j < b ==> s@[j] == ' ',
        ensures
            0 <= b <= e <= len,
            forall|j: int| 0 <= j < b ==> s@[j] == ' ',
            b < e ==> s@[b as int] != ' ',
        decreases e - b,
    {
        if s.get_char(b) != ' ' {
            break ;
        }
        b = b + 1;
    }
    proof {
        lemma_trim_end_at(s@, e as int);
        let t = s@.subrange(0, e as int);
        lemma_trim_start_at(t, b as int);
        assert(t.subrange(b as int, t.len() as int) =~= s@.subrange(b as int, e as int));
    }
    String::from_str(s.substring_char(b, e))
}

/// Relies on `String::push`: the string of exactly this character.
#[verifier::external_body]
pub fn char_to_string(c: char) -> (r: String)
    ensures
        r@ == seq![c],
{
    let mut s = String::new();
    s.push(c);
    s
}

/// Relies on `String::from_utf8`: bytes below 128 are valid UTF-8 and decode
/// one byte to one character with the same code point.
#[verifier::external_body]
pub fn ascii_bytes_to_string(bytes: &[u8]) -> (r: String)
    requires
        all_ascii(bytes@),
    ensures
        r@ == chars_of_bytes(bytes@),
{
    String::from_utf8(bytes.to_vec()).unwrap_or_default()
}

/// Relies on `String::from_utf8`: it succeeds exactly on valid UTF-8, and
/// decodes the bytes to their character sequence.
#[verifier::external_body]
pub fn utf8_bytes_to_string(bytes: &[u8]) -> (r: Option<String>)
    ensures
        r matches Some(t) ==> vstd::utf8::valid_utf8(bytes@) && t@ == vstd::utf8::decode_utf8(
            bytes@,
        ),
        r is None ==> !vstd::utf8::valid_utf8(bytes@),
{
    match String::from_utf8(bytes.to_vec()) {
        Ok(t) => Some(t),
        Err(_) => None,
    }
}

/// ASCII bytes are valid UTF-8 and decode one byte to one character with the
/// same code point.
pub proof fn lemma_ascii_decodes_itself(s: Seq<u8>)
    requires
        all_ascii(s),
    ensures
        vstd::utf8::valid_utf8(s),
        vstd::utf8::decode_utf8(s) == chars_of_bytes(s),
    decreases s.len(),
{
    if s.len() > 0 {
        assert(vstd::utf8::is_leading_byte_width_1(s[0]));
        assert(vstd::utf8::length_of_first_codepoint(s) == 1);
        let b0 = s[0];
        assert((b0 & 0x7F) == b0) by (bit_vector)
            requires
                b0 < 128,
        ;
        assert(vstd::utf8::decode_first_codepoint(s) == b0 as u32);
        assert(vstd::utf8::valid_first_scalar(s));
        assert(vstd::utf8::pop_first_scalar(s) =~= s.drop_first());
        assert(all_ascii(s.drop_first()));
        lemma_ascii_decodes_itself(s.drop_first());
        assert(vstd::utf8::valid_utf8(s));
        assert(vstd::utf8::decode_utf8(s) == seq![vstd::utf8::decode_first_scalar(s) as char]
            + vstd::utf8::decode_utf8(vstd::utf8::pop_first_scalar(s)));
        assert(vstd::utf8::decode_utf8(s) =~= chars_of_bytes(s));
    }
}

} // verus!
