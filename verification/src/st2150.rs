//! Shared protocol definitions: the specification editions, the error
//! taxonomy, and (further down) the orchestrator that drives one
//! request/response exchange — a "vacation" — over a serial link.

use vstd::prelude::*;

use crate::ascii::ascii_bytes_to_string;
use crate::context::{Context, IdInfo};
use crate::field::{dec_string, hexa_fixed, lemma_hexa_fixed_wf, Field};
use crate::frame::{expected_len, frame_bytes, len_expected_response, parse_spec, views_of, Frame};
use crate::serial_com::CommonSerialComTrait;

verus! {

/// Editions of the ST2150 specification, used to tag each message of the
/// catalog so a front-end can filter what a given counterpart supports.
#[derive(Clone, Copy, Debug, Hash, PartialEq, Eq, Structural)]
pub enum Edition2150 {
    /// Revision A (historical)
    A,
    /// Revision B (2021)
    B,
    /// Revision C (2023 - extended mode, preliminary)
    C,
    /// Revision D (2024 - extended mode)
    D,
    /// Revision E (2024)
    E,
}

/// Everything that can go wrong while building, exchanging or decoding a
/// frame. All variants are recoverable and carry what a caller needs to
/// render a diagnostic text.
#[derive(Debug, PartialEq, Eq)]
pub enum ProtocolError {
    /// No reply at all from the counterpart
    NoReply,
    /// Wrong total length of a message (got, expected)
    BadMessageLen(usize, usize),
    /// Wrong checksum of a message (got, expected)
    BadChecksum(u8, u8),
    /// No STX at the start of a message
    MissingSTX,
    /// No ETX at the end of a message
    MissingETX,
    /// The counterpart answered with the reserved error message 50
    ErrorMessage50(String),
    /// Wrong message number (got, expected)
    BadMessageNumber(u8, u8),
    /// A field separator was expected (at this byte position)
    SeparatorExpected(usize),
    /// A value cannot be encoded in the requested format
    IllegalNumberEncoding(String),
    /// A byte does not belong to the alphabet of the decoded field kind
    /// (kind, field, byte)
    IllegalFieldCharDecode(String, Field, u8),
    /// A field does not convert into the expected type (kind, field)
    ErrFieldConversion(String, Field),
    /// A response field holds a value outside its domain (field, name, domain)
    IllegalRepFieldValue(Field, String, String),
    /// A context value needed for the request is unset (label)
    ContextMissing(String),
}

/// A run of bytes as uppercase hexadecimal digit bytes, two per byte.
pub open spec fn hex_bytes(s: Seq<u8>) -> Seq<u8>
    decreases s.len(),
{
    if s.len() == 0 {
        Seq::empty()
    } else {
        hex_bytes(s.drop_last()) + hexa_fixed(s.last() as nat, 2)
    }
}

/// A run of bytes as uppercase hexadecimal text, two digits per byte.
pub open spec fn hex_chars(s: Seq<u8>) -> Seq<char> {
    crate::ascii::chars_of_bytes(hex_bytes(s))
}

/// The decimal text of a number, as the diagnostic texts spell it.
pub open spec fn dec_chars(n: int) -> Seq<char> {
    crate::ascii::chars_of_bytes(crate::field::dec_min(n as nat))
}

/// Hexadecimal digit bytes are ASCII.
proof fn lemma_hex_bytes_ascii(s: Seq<u8>)
    ensures
        hex_bytes(s).len() == 2 * s.len(),
        crate::ascii::all_ascii(hex_bytes(s)),
    decreases s.len(),
{
    if s.len() > 0 {
        lemma_hex_bytes_ascii(s.drop_last());
        lemma_hexa_fixed_wf(s.last() as nat, 2);
        assert forall|j: int| 0 <= j < hex_bytes(s).len() implies hex_bytes(s)[j] < 128 by {
            if j >= hex_bytes(s.drop_last()).len() {
                assert(hex_bytes(s)[j] == hexa_fixed(s.last() as nat, 2)[j - hex_bytes(
                    s.drop_last(),
                ).len()]);
                assert(crate::protocol::spec_is_car_hexa(hex_bytes(s)[j]));
            }
        }
    }
}

/// Uppercase hexadecimal text of a run of bytes, two digits per byte.
fn hex_text(bytes: &Vec<u8>) -> (r: String)
    ensures
        r@ == hex_chars(bytes@),
{
    let mut digits: Vec<u8> = Vec::new();
    let mut i: usize = 0;
    while i < bytes.len()
        invariant
            0 <= i <= bytes@.len(),
            digits@ == hex_bytes(bytes@.subrange(0, i as int)),
        decreases bytes@.len() - i,
    {
        proof {
            lemma_hexa_fixed_wf(bytes@[i as int] as nat, 2);
            assert(crate::field::pow16(2) == 256) by {
                assert(crate::field::pow16(0) == 1);
                assert(crate::field::pow16(1) == 16);
            }
            assert(bytes@.subrange(0, i + 1).drop_last() =~= bytes@.subrange(0, i as int));
        }
        let mut pair = Field::encode_hexa(bytes[i] as u64, 2).to_frame();
        digits.append(&mut pair);
        proof {
            assert(digits@ =~= hex_bytes(bytes@.subrange(0, i + 1)));
        }
        i = i + 1;
    }
    proof {
        assert(bytes@.subrange(0, bytes@.len() as int) =~= bytes@);
        lemma_hex_bytes_ascii(bytes@);
    }
    ascii_bytes_to_string(digits.as_slice())
}

/// The diagnostic text of each error, as `ProtocolError::to_text` renders it.
pub open spec fn error_text(e: ProtocolError) -> Seq<char> {
    match e {
        ProtocolError::NoReply => "Pas de réponse du calculateur"@,
        ProtocolError::BadMessageLen(nb, nb_expected) => "Longueur incorrecte du message ("@
            + dec_chars(nb as int) + "/"@ + dec_chars(nb_expected as int) + " cars)"@,
        ProtocolError::BadChecksum(checksum, checksum_expected) => {
            "Checksum incorrect du message (0x"@ + hex_chars(seq![checksum]) + " vs 0x"@
                + hex_chars(seq![checksum_expected]) + " attendu)"@
        },
        ProtocolError::MissingSTX => "Pas de 'STX' en début de message"@,
        ProtocolError::MissingETX => "Pas de 'ETX' en fin de message"@,
        ProtocolError::ErrorMessage50(txt) => "Réponse avec un message 50 d'erreur : "@ + txt@,
        ProtocolError::BadMessageNumber(num, num_expected) => "Numéro incorrect du message ("@
            + dec_chars(num as int) + " vs "@ + dec_chars(num_expected as int) + " attendu)"@,
        ProtocolError::SeparatorExpected(pos) => "Séparateur de champ attendu en position "@
            + dec_chars(pos as int) + " dans le message"@,
        ProtocolError::IllegalNumberEncoding(txt) => "Encodage trame impossible : "@ + txt@,
        ProtocolError::IllegalFieldCharDecode(str_decode, field, car) => {
            "Contenu '0x"@ + hex_chars(seq![car]) + "' incorrect pour décodage en "@ + str_decode@
                + " du champ 0x"@ + hex_chars(field@)
        },
        ProtocolError::ErrFieldConversion(str_decode, field) => {
            "Erreur lors de la conversion en "@ + str_decode@ + " du champ 0x"@ + hex_chars(
                field@,
            )
        },
        ProtocolError::IllegalRepFieldValue(field, nom, domaine_valeurs) => {
            "Valeur incorrecte du champ '"@ + nom@ + "'=0x"@ + hex_chars(field@) + " : "@
                + domaine_valeurs@
        },
        ProtocolError::ContextMissing(nom) => "Valeur non renseignée du champ '"@ + nom@ + "'"@,
    }
}

impl ProtocolError {
    /// A short diagnostic text for the error, ready to display.
    pub fn to_text(&self) -> (r: String)
        ensures
            r@ == error_text(*self),
    {
        let r = match self {
            ProtocolError::NoReply => String::from_str("Pas de réponse du calculateur"),
            ProtocolError::BadMessageLen(nb, nb_expected) => String::from_str(
                "Longueur incorrecte du message (",
            ).concat(dec_string(*nb as u64).as_str()).concat("/").concat(
                dec_string(*nb_expected as u64).as_str(),
            ).concat(" cars)"),
            ProtocolError::BadChecksum(checksum, checksum_expected) => {
                let mut got: Vec<u8> = Vec::new();
                got.push(*checksum);
                let mut want: Vec<u8> = Vec::new();
                want.push(*checksum_expected);
                proof {
                    assert(got@ =~= seq![*checksum]);
                    assert(want@ =~= seq![*checksum_expected]);
                }
                String::from_str("Checksum incorrect du message (0x").concat(
                    hex_text(&got).as_str(),
                ).concat(" vs 0x").concat(hex_text(&want).as_str()).concat(" attendu)")
            },
            ProtocolError::MissingSTX => String::from_str("Pas de 'STX' en début de message"),
            ProtocolError::MissingETX => String::from_str("Pas de 'ETX' en fin de message"),
            ProtocolError::ErrorMessage50(txt) => String::from_str(
                "Réponse avec un message 50 d'erreur : ",
            ).concat(txt.as_str()),
            ProtocolError::BadMessageNumber(num, num_expected) => String::from_str(
                "Numéro incorrect du message (",
            ).concat(dec_string(*num as u64).as_str()).concat(" vs ").concat(
                dec_string(*num_expected as u64).as_str(),
            ).concat(" attendu)"),
            ProtocolError::SeparatorExpected(pos) => String::from_str(
                "Séparateur de champ attendu en position ",
            ).concat(dec_string(*pos as u64).as_str()).concat(" dans le message"),
            ProtocolError::IllegalNumberEncoding(txt) => String::from_str(
                "Encodage trame impossible : ",
            ).concat(txt.as_str()),
            ProtocolError::IllegalFieldCharDecode(str_decode, field, car) => {
                let mut bad: Vec<u8> = Vec::new();
                bad.push(*car);
                proof {
                    assert(bad@ =~= seq![*car]);
                }
                String::from_str("Contenu '0x").concat(hex_text(&bad).as_str()).concat(
                    "' incorrect pour décodage en ",
                ).concat(str_decode.as_str()).concat(" du champ 0x").concat(
                    hex_text(&field.to_frame()).as_str(),
                )
            },
            ProtocolError::ErrFieldConversion(str_decode, field) => String::from_str(
                "Erreur lors de la conversion en ",
            ).concat(str_decode.as_str()).concat(" du champ 0x").concat(
                hex_text(&field.to_frame()).as_str(),
            ),
            ProtocolError::IllegalRepFieldValue(field, nom, domaine_valeurs) => String::from_str(
                "Valeur incorrecte du champ '",
            ).concat(nom.as_str()).concat("'=0x").concat(hex_text(&field.to_frame()).as_str())
                .concat(" : ").concat(domaine_valeurs.as_str()),
            ProtocolError::ContextMissing(nom) => String::from_str(
                "Valeur non renseignée du champ '",
            ).concat(nom.as_str()).concat("'"),
        };
        proof {
            assert(r@ =~= error_text(*self));
        }
        r
    }
}

/// One serial link under the ST2150 protocol, with the trace of the last
/// vacation: last request sent, last response received, last error text.
pub struct ST2150<P: CommonSerialComTrait> {
    /// The serial link
    pub port: P,
    /// Bytes of the last request sent
    pub last_req: Vec<u8>,
    /// Bytes of the last response received
    pub last_rep: Vec<u8>,
    /// Text of the last error, empty after a success
    pub last_error: String,
}

impl<P: CommonSerialComTrait> ST2150<P> {
    /// Take ownership of a link, with an empty trace.
    pub fn new(port: P) -> (r: Self)
        ensures
            r.last_req@.len() == 0,
            r.last_rep@.len() == 0,
            r.last_error@.len() == 0,
    {
        ST2150 { port, last_req: Vec::new(), last_rep: Vec::new(), last_error: String::new() }
    }

    /// Send a request frame and restart the trace with its bytes.
    pub fn send_req(&mut self, req: &Frame)
        requires
            req.message_num < 100,
        ensures
            final(self).last_req@ == frame_bytes(req.message_num, views_of(req.fields@)),
            final(self).last_rep@.len() == 0,
            final(self).last_error@.len() == 0,
    {
        self.last_req = req.to_frame();
        self.last_rep = Vec::new();
        self.last_error = String::new();
        let bytes = req.to_frame();
        self.port.write(bytes.as_slice());
    }

    /// Wait for a response of at most the length the field table allows and
    /// record it in the trace; no bytes at all is the no-reply error.
    pub fn wait_rep(&mut self, len_fields: &[usize]) -> (r: Result<Vec<u8>, ProtocolError>)
        requires
            expected_len(len_fields@) <= usize::MAX,
        ensures
            r matches Ok(v) ==> v@.len() > 0 && final(self).last_rep@ == v@,
            r is Err ==> r == Err::<Vec<u8>, ProtocolError>(ProtocolError::NoReply) && final(self).last_rep@.len() == 0,
            final(self).last_req == old(self).last_req,
            final(self).last_error == old(self).last_error,
    {
        let max_expected_len = len_expected_response(len_fields);
        let buffer = crate::protocol::waiting_frame(&mut self.port, max_expected_len);
        if buffer.len() == 0 {
            self.last_rep = Vec::new();
            return Err(ProtocolError::NoReply);
        }
        let mut copy: Vec<u8> = Vec::new();
        copy.extend_from_slice(buffer.as_slice());
        self.last_rep = copy;
        Ok(buffer)
    }

    /// Decode a received buffer as a frame of the expected shape, recording
    /// the outcome in the error trace; see `parse_spec` for the validations.
    pub fn try_from_buffer(
        &mut self,
        buffer: &[u8],
        num_message: u8,
        len_fields: &[usize],
    ) -> (r: Result<Frame, ProtocolError>)
        requires
            expected_len(len_fields@) <= usize::MAX,
        ensures
            parse_spec(buffer@, num_message, len_fields@, r),
            r matches Err(e) ==> !(e is NoReply),
            r is Ok ==> final(self).last_error@.len() == 0,
            r matches Err(e) ==> final(self).last_error@ == error_text(e),
            final(self).last_req == old(self).last_req,
            final(self).last_rep == old(self).last_rep,
    {
        let ret = Frame::try_from_buffer(buffer, num_message, len_fields);
        match ret {
            Ok(frame) => {
                self.last_error = String::new();
                Ok(frame)
            },
            Err(e) => {
                self.last_error = e.to_text();
                Err(e)
            },
        }
    }

    /// Can this message's request be built from the context? Succeeds
    /// exactly when every identifier the message's request needs is set.
    pub fn message_availability(context: &Context, message_num: u8) -> (r: Result<
        (),
        ProtocolError,
    >)
        requires
            context.wf(),
            crate::messages::supported_message_num(message_num),
        ensures
            r is Ok <==> crate::messages::all_ids_set(
                *context,
                crate::messages::request_ids_of(message_num),
            ),
            r matches Err(e) ==> e is ContextMissing,
    {
        let ids = crate::messages::request_ids(message_num);
        crate::messages::availability(context, &ids)
    }

    /// One full vacation of a message: reset the trace, run the message's
    /// cycle — availability, build, send, wait, validate, decode — and
    /// record the outcome, error text included. With no reply at all the
    /// context is left exactly as it was.
    pub fn do_message_vacation(&mut self, context: &mut Context, message_num: u8) -> (r: Result<
        (),
        ProtocolError,
    >)
        requires
            old(context).wf(),
            crate::messages::supported_message_num(message_num),
        ensures
            final(context).wf(),
            r == Err::<(), ProtocolError>(ProtocolError::NoReply) ==> forall|id2: IdInfo|
                crate::context::valid_id(id2) ==> #[trigger] final(context).value_of(id2) == old(context).value_of(id2),
            r is Ok ==> final(self).last_error@.len() == 0,
            r matches Err(e) ==> final(self).last_error@ == error_text(e),
            !crate::messages::all_ids_set(
                *old(context),
                crate::messages::request_ids_of(message_num),
            ) ==> (r matches Err(e) && e is ContextMissing && (forall|id2: IdInfo|
                crate::context::valid_id(id2) ==> #[trigger] final(context).value_of(id2) == old(context).value_of(id2)) && final(self).last_req@.len() == 0 && final(self).last_rep@.len() == 0),
    {
        proof {
            let ids = crate::messages::request_ids_of(message_num);
            let c = *old(context);
            if message_num == 20 && c.is_set(IdInfo::Predetermination) && c.is_set(
                IdInfo::CodeProduit,
            ) {
                assert forall|i: int| 0 <= i < ids.len() implies c.is_set(#[trigger] ids[i]) by {
                    assert(ids[i] == IdInfo::Predetermination || ids[i] == IdInfo::CodeProduit);
                }
            }
            if message_num == 22 && c.is_set(IdInfo::IdentificationTag) {
                assert forall|i: int| 0 <= i < ids.len() implies c.is_set(#[trigger] ids[i]) by {
                    assert(ids[i] == IdInfo::IdentificationTag);
                }
            }
            if message_num == 31 && c.is_set(IdInfo::Quantieme) {
                assert forall|i: int| 0 <= i < ids.len() implies c.is_set(#[trigger] ids[i]) by {
                    assert(ids[i] == IdInfo::Quantieme);
                }
            }
            if message_num == 32 && c.is_set(IdInfo::Quantieme) && c.is_set(
                IdInfo::IndexJournalier,
            ) {
                assert forall|i: int| 0 <= i < ids.len() implies c.is_set(#[trigger] ids[i]) by {
                    assert(ids[i] == IdInfo::Quantieme || ids[i] == IdInfo::IndexJournalier);
                }
            }
            if message_num == 34 && c.is_set(IdInfo::Quantieme) && c.is_set(
                IdInfo::IndexJournalier,
            ) && c.is_set(IdInfo::IndexFractionnement) {
                assert forall|i: int| 0 <= i < ids.len() implies c.is_set(#[trigger] ids[i]) by {
                    assert(ids[i] == IdInfo::Quantieme || ids[i] == IdInfo::IndexJournalier
                        || ids[i] == IdInfo::IndexFractionnement);
                }
            }
            if message_num == 36 && c.is_set(IdInfo::DateAAMMJJ) && c.is_set(
                IdInfo::IndexJournalier,
            ) {
                assert forall|i: int| 0 <= i < ids.len() implies c.is_set(#[trigger] ids[i]) by {
                    assert(ids[i] == IdInfo::DateAAMMJJ || ids[i] == IdInfo::IndexJournalier);
                }
            }
            if message_num == 37 && crate::message37::message37_request_ready(c) {
                assert forall|i: int| 0 <= i < ids.len() implies c.is_set(#[trigger] ids[i]) by {
                    vstd::arithmetic::div_mod::lemma_fundamental_div_mod(i, 2);
                    let k = i / 2 + 1;
                    assert(1 <= k <= 9);
                    assert(c.is_set(IdInfo::CodeProduitCompartiment(k as usize)));
                    assert(c.is_set(IdInfo::QuantiteCompartiment(k as usize)));
                    if i % 2 == 0 {
                        assert(i == 2 * k - 2);
                        assert(ids[2 * k - 2] == IdInfo::CodeProduitCompartiment(k as usize));
                    } else {
                        assert(i == 2 * k - 1);
                        assert(ids[2 * k - 1] == IdInfo::QuantiteCompartiment(k as usize));
                    }
                }
            }
            if message_num == 40 && c.is_set(IdInfo::HeureHHMM) {
                assert forall|i: int| 0 <= i < ids.len() implies c.is_set(#[trigger] ids[i]) by {
                    assert(ids[i] == IdInfo::HeureHHMM);
                }
            }
        }
        self.last_req = Vec::new();
        self.last_rep = Vec::new();
        self.last_error = String::new();
        let ret = match message_num {
            0 => crate::message00::Message00 {}.do_vacation(self, context),
            10 => crate::message10::Message10 {}.do_vacation(self, context),
            11 => crate::message11::Message11 {}.do_vacation(self, context),
            20 => crate::message20::Message20 {}.do_vacation(self, context),
            21 => crate::message21::Message21 {}.do_vacation(self, context),
            22 => crate::message22::Message22 {}.do_vacation(self, context),
            30 => crate::message30::Message30 {}.do_vacation(self, context),
            31 => crate::message31::Message31 {}.do_vacation(self, context),
            32 => crate::message32::Message32 {}.do_vacation(self, context),
            33 => crate::message33::Message33 {}.do_vacation(self, context),
            34 => crate::message34::Message34 {}.do_vacation(self, context),
            35 => crate::message35::Message35 {}.do_vacation(self, context),
            36 => crate::message36::Message36 {}.do_vacation(self, context),
            37 => crate::message37::Message37 {}.do_vacation(self, context),
            40 => crate::message40::Message40 {}.do_vacation(self, context),
            66 => crate::message66::Message66.do_vacation(self, context),
            _ => crate::message70::Message70.do_vacation(self, context),
        };
        match ret {
            Ok(()) => {
                self.last_error = String::new();
                Ok(())
            },
            Err(e) => {
                self.last_error = e.to_text();
                Err(e)
            },
        }
    }
}

} // verus!
