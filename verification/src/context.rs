//! The typed context store: every atomic datum the protocol can carry, keyed
//! by a closed set of identifiers, each with a fixed format, a label and an
//! optional domain maximum. Values start unset; typed setters enforce the
//! domain clamp and refresh the derived date/time projections.

use vstd::prelude::*;

use crate::ascii::chars_of_bytes;
use crate::field::dec_min;

verus! {

/// Number of products the protocol can name
pub const NB_PRODUITS: usize = 16;

/// Width of a product label
pub const LIBELLE_PRODUIT_WIDTH: usize = 10;

/// Number of compartments of a truck
pub const NB_COMPARTIMENTS: usize = 9;

/// Number of hoses
pub const NB_FLEXIBLES: usize = 3;

/// How many identifiers the context holds (the plain ones plus one entry per
/// product label, per compartment product code and per compartment quantity)
pub const NB_CONTEXT_ENTRIES: usize = 87;

/// Format of one context value. Values that the wire carries as tenths of a
/// unit (flow rate, temperatures) are held as scaled integers, `Tenths`.
#[derive(Clone, Copy, Debug, PartialEq, Eq, Structural)]
pub enum FormatInfo {
    Bool,
    Char,
    U8,
    U16,
    U32,
    U64,
    Tenths,
    String(usize),
}

/// Identifier of one atomic datum of the protocol. The last three are
/// parameterized by a product or compartment number.
#[derive(Clone, Copy, Debug, Hash, PartialEq, Eq, Structural)]
pub enum IdInfo {
    Ack,
    Nack,
    EnMesurage,
    CodeDefaut,
    ArretIntermediaire,
    ForcagePetitDebit,
    ModeConnecte,
    Totalisateur,
    DebitInstant,
    QuantitePrincipale,
    QuantiteSecondaire,
    TemperatureInstant,
    TemperatureMoyen,
    Predetermination,
    CodeProduit,
    IndexSansRaz,
    IndexJournalier,
    Quantieme,
    HeureHHMMDebut,
    HeureHHMMFin,
    IdentificationTag,
    ReferenceEtImmatriculation,
    VersionLogiciel,
    DateAAMMJJHeureHHMMSS,
    TypeCompteur,
    NbMesuragesQuantieme,
    LibelleProduit,
    NbFractionnements,
    LibelleTableProduits(usize),
    IndexFractionnement,
    TypeDistribution,
    DateAAMMJJ,
    HeureHHMMSS,
    HeureHHMM,
    NbJEvents,
    DataJEvent,
    LibelleJEvent,
    CodeProduitCompartiment(usize),
    QuantiteCompartiment(usize),
    NombreCompartiments,
    PresenceRemorque,
    CodeProduitCollecteur,
    CodeProduitPartieCommune,
    CodeProduitFlexible1,
    CodeProduitFlexible2,
    CodeErreurMouvementProduit,
    CodeProduitFinal,
    NumeroCompartiment,
    NumeroCompartimentFinal,
    OrdreCompartiments,
    NumeroFlexible,
    NumeroFlexibleFinal,
    FinirFlexibleVide,
}

/// One context value, in the format its identifier declares.
#[derive(Clone, Debug)]
pub enum TValue {
    Bool(bool),
    Char(char),
    U8(u8),
    U16(u16),
    U32(u32),
    U64(u64),
    Tenths(i32),
    String(String),
}

/// A parameterized identifier stays within its declared range.
pub open spec fn valid_id(id: IdInfo) -> bool {
    match id {
        IdInfo::LibelleTableProduits(n) => n <= NB_PRODUITS,
        IdInfo::CodeProduitCompartiment(n) => n <= NB_COMPARTIMENTS,
        IdInfo::QuantiteCompartiment(n) => n <= NB_COMPARTIMENTS,
        _ => true,
    }
}

/// Position of an identifier in the value table.
pub open spec fn id_index(id: IdInfo) -> int {
    match id {
        IdInfo::Ack => 0,
        IdInfo::Nack => 1,
        IdInfo::EnMesurage => 2,
        IdInfo::CodeDefaut => 3,
        IdInfo::ArretIntermediaire => 4,
        IdInfo::ForcagePetitDebit => 5,
        IdInfo::ModeConnecte => 6,
        IdInfo::Totalisateur => 7,
        IdInfo::DebitInstant => 8,
        IdInfo::QuantitePrincipale => 9,
        IdInfo::QuantiteSecondaire => 10,
        IdInfo::TemperatureInstant => 11,
        IdInfo::TemperatureMoyen => 12,
        IdInfo::Predetermination => 13,
        IdInfo::CodeProduit => 14,
        IdInfo::IndexSansRaz => 15,
        IdInfo::IndexJournalier => 16,
        IdInfo::Quantieme => 17,
        IdInfo::HeureHHMMDebut => 18,
        IdInfo::HeureHHMMFin => 19,
        IdInfo::IdentificationTag => 20,
        IdInfo::ReferenceEtImmatriculation => 21,
        IdInfo::VersionLogiciel => 22,
        IdInfo::DateAAMMJJHeureHHMMSS => 23,
        IdInfo::TypeCompteur => 24,
        IdInfo::NbMesuragesQuantieme => 25,
        IdInfo::LibelleProduit => 26,
        IdInfo::NbFractionnements => 27,
        IdInfo::IndexFractionnement => 28,
        IdInfo::TypeDistribution => 29,
        IdInfo::DateAAMMJJ => 30,
        IdInfo::HeureHHMMSS => 31,
        IdInfo::HeureHHMM => 32,
        IdInfo::NbJEvents => 33,
        IdInfo::DataJEvent => 34,
        IdInfo::LibelleJEvent => 35,
        IdInfo::NombreCompartiments => 36,
        IdInfo::PresenceRemorque => 37,
        IdInfo::CodeProduitCollecteur => 38,
        IdInfo::CodeProduitPartieCommune => 39,
        IdInfo::CodeProduitFlexible1 => 40,
        IdInfo::CodeProduitFlexible2 => 41,
        IdInfo::CodeErreurMouvementProduit => 42,
        IdInfo::CodeProduitFinal => 43,
        IdInfo::NumeroCompartiment => 44,
        IdInfo::NumeroCompartimentFinal => 45,
        IdInfo::OrdreCompartiments => 46,
        IdInfo::NumeroFlexible => 47,
        IdInfo::NumeroFlexibleFinal => 48,
        IdInfo::FinirFlexibleVide => 49,
        IdInfo::LibelleTableProduits(n) => 50 + n,
        IdInfo::CodeProduitCompartiment(n) => 67 + n,
        IdInfo::QuantiteCompartiment(n) => 77 + n,
    }
}

/// Valid identifiers fill the table without colliding.
pub proof fn lemma_id_index_range(id: IdInfo)
    requires
        valid_id(id),
    ensures
        0 <= id_index(id) < NB_CONTEXT_ENTRIES,
{
}

/// Two valid identifiers with the same position are the same identifier.
pub proof fn lemma_id_index_injective(a: IdInfo, b: IdInfo)
    requires
        valid_id(a),
        valid_id(b),
        id_index(a) == id_index(b),
    ensures
        a == b,
{
}

/// Position of an identifier in the value table.
pub fn id_index_of(id: IdInfo) -> (r: usize)
    requires
        valid_id(id),
    ensures
        r == id_index(id),
        r < NB_CONTEXT_ENTRIES,
{
    match id {
        IdInfo::Ack => 0,
        IdInfo::Nack => 1,
        IdInfo::EnMesurage => 2,
        IdInfo::CodeDefaut => 3,
        IdInfo::ArretIntermediaire => 4,
        IdInfo::ForcagePetitDebit => 5,
        IdInfo::ModeConnecte => 6,
        IdInfo::Totalisateur => 7,
        IdInfo::DebitInstant => 8,
        IdInfo::QuantitePrincipale => 9,
        IdInfo::QuantiteSecondaire => 10,
        IdInfo::TemperatureInstant => 11,
        IdInfo::TemperatureMoyen => 12,
        IdInfo::Predetermination => 13,
        IdInfo::CodeProduit => 14,
        IdInfo::IndexSansRaz => 15,
        IdInfo::IndexJournalier => 16,
        IdInfo::Quantieme => 17,
        IdInfo::HeureHHMMDebut => 18,
        IdInfo::HeureHHMMFin => 19,
        IdInfo::IdentificationTag => 20,
        IdInfo::ReferenceEtImmatriculation => 21,
        IdInfo::VersionLogiciel => 22,
        IdInfo::DateAAMMJJHeureHHMMSS => 23,
        IdInfo::TypeCompteur => 24,
        IdInfo::NbMesuragesQuantieme => 25,
        IdInfo::LibelleProduit => 26,
        IdInfo::NbFractionnements => 27,
        IdInfo::IndexFractionnement => 28,
        IdInfo::TypeDistribution => 29,
        IdInfo::DateAAMMJJ => 30,
        IdInfo::HeureHHMMSS => 31,
        IdInfo::HeureHHMM => 32,
        IdInfo::NbJEvents => 33,
        IdInfo::DataJEvent => 34,
        IdInfo::LibelleJEvent => 35,
        IdInfo::NombreCompartiments => 36,
        IdInfo::PresenceRemorque => 37,
        IdInfo::CodeProduitCollecteur => 38,
        IdInfo::CodeProduitPartieCommune => 39,
        IdInfo::CodeProduitFlexible1 => 40,
        IdInfo::CodeProduitFlexible2 => 41,
        IdInfo::CodeErreurMouvementProduit => 42,
        IdInfo::CodeProduitFinal => 43,
        IdInfo::NumeroCompartiment => 44,
        IdInfo::NumeroCompartimentFinal => 45,
        IdInfo::OrdreCompartiments => 46,
        IdInfo::NumeroFlexible => 47,
        IdInfo::NumeroFlexibleFinal => 48,
        IdInfo::FinirFlexibleVide => 49,
        IdInfo::LibelleTableProduits(n) => 50 + n,
        IdInfo::CodeProduitCompartiment(n) => 67 + n,
        IdInfo::QuantiteCompartiment(n) => 77 + n,
    }
}

/// Format declared for an identifier, fixed for the program's lifetime.
pub open spec fn format_of(id: IdInfo) -> FormatInfo {
    match id {
        IdInfo::Ack => FormatInfo::Bool,
        IdInfo::Nack => FormatInfo::Bool,
        IdInfo::EnMesurage => FormatInfo::Bool,
        IdInfo::CodeDefaut => FormatInfo::U8,
        IdInfo::ArretIntermediaire => FormatInfo::Bool,
        IdInfo::ForcagePetitDebit => FormatInfo::Bool,
        IdInfo::ModeConnecte => FormatInfo::Bool,
        IdInfo::Totalisateur => FormatInfo::U32,
        IdInfo::DebitInstant => FormatInfo::Tenths,
        IdInfo::QuantitePrincipale => FormatInfo::U32,
        IdInfo::QuantiteSecondaire => FormatInfo::U32,
        IdInfo::TemperatureInstant => FormatInfo::Tenths,
        IdInfo::TemperatureMoyen => FormatInfo::Tenths,
        IdInfo::Predetermination => FormatInfo::U32,
        IdInfo::CodeProduit => FormatInfo::U8,
        IdInfo::IndexSansRaz => FormatInfo::U16,
        IdInfo::IndexJournalier => FormatInfo::U16,
        IdInfo::Quantieme => FormatInfo::U16,
        IdInfo::HeureHHMMDebut => FormatInfo::U16,
        IdInfo::HeureHHMMFin => FormatInfo::U16,
        IdInfo::IdentificationTag => FormatInfo::String(100),
        IdInfo::ReferenceEtImmatriculation => FormatInfo::String(15),
        IdInfo::VersionLogiciel => FormatInfo::String(10),
        IdInfo::DateAAMMJJHeureHHMMSS => FormatInfo::U64,
        IdInfo::TypeCompteur => FormatInfo::U8,
        IdInfo::NbMesuragesQuantieme => FormatInfo::U16,
        IdInfo::LibelleProduit => FormatInfo::String(10),
        IdInfo::NbFractionnements => FormatInfo::U16,
        IdInfo::LibelleTableProduits(_) => FormatInfo::String(10),
        IdInfo::IndexFractionnement => FormatInfo::U16,
        IdInfo::TypeDistribution => FormatInfo::Char,
        IdInfo::DateAAMMJJ => FormatInfo::U32,
        IdInfo::HeureHHMMSS => FormatInfo::U32,
        IdInfo::HeureHHMM => FormatInfo::U16,
        IdInfo::NbJEvents => FormatInfo::U16,
        IdInfo::DataJEvent => FormatInfo::String(12),
        IdInfo::LibelleJEvent => FormatInfo::String(40),
        IdInfo::CodeProduitCompartiment(_) => FormatInfo::U8,
        IdInfo::QuantiteCompartiment(_) => FormatInfo::U32,
        IdInfo::NombreCompartiments => FormatInfo::U8,
        IdInfo::PresenceRemorque => FormatInfo::Bool,
        IdInfo::CodeProduitCollecteur => FormatInfo::U8,
        IdInfo::CodeProduitPartieCommune => FormatInfo::U8,
        IdInfo::CodeProduitFlexible1 => FormatInfo::U8,
        IdInfo::CodeProduitFlexible2 => FormatInfo::U8,
        IdInfo::CodeErreurMouvementProduit => FormatInfo::U8,
        IdInfo::CodeProduitFinal => FormatInfo::U8,
        IdInfo::NumeroCompartiment => FormatInfo::U8,
        IdInfo::NumeroCompartimentFinal => FormatInfo::U8,
        IdInfo::OrdreCompartiments => FormatInfo::U32,
        IdInfo::NumeroFlexible => FormatInfo::U8,
        IdInfo::NumeroFlexibleFinal => FormatInfo::U8,
        IdInfo::FinirFlexibleVide => FormatInfo::Bool,
    }
}

/// Declared domain maximum of an identifier, if any. Writes above it are
/// silently dropped.
pub open spec fn max_of(id: IdInfo) -> Option<u64> {
    match id {
        IdInfo::Predetermination => Some(99999u64),
        IdInfo::CodeProduit => Some(16u64),
        IdInfo::IndexJournalier => Some(999u64),
        IdInfo::Quantieme => Some(366u64),
        IdInfo::IndexFractionnement => Some(999u64),
        IdInfo::DateAAMMJJ => Some(991231u64),
        IdInfo::HeureHHMM => Some(2359u64),
        IdInfo::CodeProduitCompartiment(_) => Some(16u64),
        IdInfo::QuantiteCompartiment(_) => Some(99999u64),
        IdInfo::CodeProduitFinal => Some(16u64),
        IdInfo::NumeroCompartiment => Some(9u64),
        IdInfo::NumeroCompartimentFinal => Some(9u64),
        IdInfo::OrdreCompartiments => Some(987654321u64),
        IdInfo::NumeroFlexible => Some(3u64),
        IdInfo::NumeroFlexibleFinal => Some(3u64),
        _ => None,
    }
}

/// A value carries the format its identifier declares, and a string value
/// stays within its declared width.
pub open spec fn type_matches(tv: TValue, f: FormatInfo) -> bool {
    match tv {
        TValue::Bool(_) => f == FormatInfo::Bool,
        TValue::Char(_) => f == FormatInfo::Char,
        TValue::U8(_) => f == FormatInfo::U8,
        TValue::U16(_) => f == FormatInfo::U16,
        TValue::U32(_) => f == FormatInfo::U32,
        TValue::U64(_) => f == FormatInfo::U64,
        TValue::Tenths(_) => f == FormatInfo::Tenths,
        TValue::String(s) => f matches FormatInfo::String(w) && s@.len() <= w,
    }
}

/// A numeric value respects its identifier's domain maximum.
pub open spec fn within_max(tv: TValue, m: Option<u64>) -> bool {
    match m {
        None => true,
        Some(mx) => match tv {
            TValue::U8(v) => v <= mx,
            TValue::U16(v) => v <= mx,
            TValue::U32(v) => v <= mx,
            TValue::U64(v) => v <= mx,
            _ => true,
        },
    }
}

/// What may sit in an identifier's slot: nothing, or a value of the right
/// format within the declared maximum.
pub open spec fn entry_ok(id: IdInfo, v: Option<TValue>) -> bool {
    match v {
        None => true,
        Some(tv) => type_matches(tv, format_of(id)) && within_max(tv, max_of(id)),
    }
}

/// The store of all protocol values. Created with every value unset; the
/// whole context is recreated at each session reset.
pub struct Context {
    /// One optional value per identifier, at the identifier's index
    values: Vec<Option<TValue>>,
}

impl Context {
    /// Every identifier has a slot and every set value is well typed and in
    /// domain.
    pub closed spec fn wf(self) -> bool {
        &&& self.values@.len() == NB_CONTEXT_ENTRIES
        &&& forall|id: IdInfo|
            valid_id(id) ==> entry_ok(id, self.values@[#[trigger] id_index(id)])
    }

    /// The value stored for an identifier.
    pub closed spec fn value_of(self, id: IdInfo) -> Option<TValue> {
        self.values@[id_index(id)]
    }

    /// Is a value set for this identifier?
    pub open spec fn is_set(self, id: IdInfo) -> bool {
        self.value_of(id) is Some
    }

    /// A fresh context: every identifier unset.
    pub fn new() -> (r: Self)
        ensures
            r.wf(),
            forall|id: IdInfo| valid_id(id) ==> !(#[trigger] r.is_set(id)),
    {
        let mut values: Vec<Option<TValue>> = Vec::new();
        let mut i: usize = 0;
        while i < NB_CONTEXT_ENTRIES
            invariant
                0 <= i <= NB_CONTEXT_ENTRIES,
                values@.len() == i,
                forall|j: int| 0 <= j < i ==> values@[j] is None,
            decreases NB_CONTEXT_ENTRIES - i,
        {
            values.push(None);
            i = i + 1;
        }
        let r = Context { values };
        proof {
            assert forall|id: IdInfo| valid_id(id) implies entry_ok(
                id,
                r.values@[#[trigger] id_index(id)],
            ) && !r.is_set(id) by {
                lemma_id_index_range(id);
            }
        }
        r
    }

    /// Replace the slot of `id`, leaving every other identifier untouched.
    fn store(&mut self, id: IdInfo, v: Option<TValue>)
        requires
            old(self).wf(),
            valid_id(id),
            entry_ok(id, v),
        ensures
            final(self).wf(),
            final(self).value_of(id) == v,
            forall|id2: IdInfo|
                valid_id(id2) && id2 != id ==> #[trigger] final(self).value_of(id2) == old(self).value_of(id2),
    {
        proof {
            lemma_id_index_range(id);
        }
        let i = id_index_of(id);
        self.values.set(i, v);
        proof {
            assert forall|id2: IdInfo| valid_id(id2) && id2 != id implies #[trigger] self.value_of(
                id2,
            ) == old(self).value_of(id2) by {
                if id_index(id2) == id_index(id) {
                    lemma_id_index_injective(id2, id);
                }
            }
            assert forall|id2: IdInfo| valid_id(id2) implies entry_ok(
                id2,
                self.values@[#[trigger] id_index(id2)],
            ) by {
                if id_index(id2) == id_index(id) {
                    lemma_id_index_injective(id2, id);
                }
            }
        }
    }

    /// Format declared for an identifier.
    pub fn get_info_format(&self, id: IdInfo) -> (r: FormatInfo)
        ensures
            r == format_of(id),
    {
        match id {
            IdInfo::Ack => FormatInfo::Bool,
            IdInfo::Nack => FormatInfo::Bool,
            IdInfo::EnMesurage => FormatInfo::Bool,
            IdInfo::CodeDefaut => FormatInfo::U8,
            IdInfo::ArretIntermediaire => FormatInfo::Bool,
            IdInfo::ForcagePetitDebit => FormatInfo::Bool,
            IdInfo::ModeConnecte => FormatInfo::Bool,
            IdInfo::Totalisateur => FormatInfo::U32,
            IdInfo::DebitInstant => FormatInfo::Tenths,
            IdInfo::QuantitePrincipale => FormatInfo::U32,
            IdInfo::QuantiteSecondaire => FormatInfo::U32,
            IdInfo::TemperatureInstant => FormatInfo::Tenths,
            IdInfo::TemperatureMoyen => FormatInfo::Tenths,
            IdInfo::Predetermination => FormatInfo::U32,
            IdInfo::CodeProduit => FormatInfo::U8,
            IdInfo::IndexSansRaz => FormatInfo::U16,
            IdInfo::IndexJournalier => FormatInfo::U16,
            IdInfo::Quantieme => FormatInfo::U16,
            IdInfo::HeureHHMMDebut => FormatInfo::U16,
            IdInfo::HeureHHMMFin => FormatInfo::U16,
            IdInfo::IdentificationTag => FormatInfo::String(100),
            IdInfo::ReferenceEtImmatriculation => FormatInfo::String(15),
            IdInfo::VersionLogiciel => FormatInfo::String(10),
            IdInfo::DateAAMMJJHeureHHMMSS => FormatInfo::U64,
            IdInfo::TypeCompteur => FormatInfo::U8,
            IdInfo::NbMesuragesQuantieme => FormatInfo::U16,
            IdInfo::LibelleProduit => FormatInfo::String(10),
            IdInfo::NbFractionnements => FormatInfo::U16,
            IdInfo::LibelleTableProduits(_) => FormatInfo::String(10),
            IdInfo::IndexFractionnement => FormatInfo::U16,
            IdInfo::TypeDistribution => FormatInfo::Char,
            IdInfo::DateAAMMJJ => FormatInfo::U32,
            IdInfo::HeureHHMMSS => FormatInfo::U32,
            IdInfo::HeureHHMM => FormatInfo::U16,
            IdInfo::NbJEvents => FormatInfo::U16,
            IdInfo::DataJEvent => FormatInfo::String(12),
            IdInfo::LibelleJEvent => FormatInfo::String(40),
            IdInfo::CodeProduitCompartiment(_) => FormatInfo::U8,
            IdInfo::QuantiteCompartiment(_) => FormatInfo::U32,
            IdInfo::NombreCompartiments => FormatInfo::U8,
            IdInfo::PresenceRemorque => FormatInfo::Bool,
            IdInfo::CodeProduitCollecteur => FormatInfo::U8,
            IdInfo::CodeProduitPartieCommune => FormatInfo::U8,
            IdInfo::CodeProduitFlexible1 => FormatInfo::U8,
            IdInfo::CodeProduitFlexible2 => FormatInfo::U8,
            IdInfo::CodeErreurMouvementProduit => FormatInfo::U8,
            IdInfo::CodeProduitFinal => FormatInfo::U8,
            IdInfo::NumeroCompartiment => FormatInfo::U8,
            IdInfo::NumeroCompartimentFinal => FormatInfo::U8,
            IdInfo::OrdreCompartiments => FormatInfo::U32,
            IdInfo::NumeroFlexible => FormatInfo::U8,
            IdInfo::NumeroFlexibleFinal => FormatInfo::U8,
            IdInfo::FinirFlexibleVide => FormatInfo::Bool,
        }
    }

    /// Is a value set for this identifier?
    pub fn has_value(&self, id: IdInfo) -> (r: bool)
        requires
            self.wf(),
            valid_id(id),
        ensures
            r == self.is_set(id),
    {
        proof {
            lemma_id_index_range(id);
        }
        let i = id_index_of(id);
        self.values[i].is_some()
    }

    /// Value of a boolean identifier, if set.
    pub fn get_option_info_bool(&self, id: IdInfo) -> (r: Option<bool>)
        requires
            self.wf(),
            valid_id(id),
            format_of(id) == FormatInfo::Bool,
        ensures
            r == (match self.value_of(id) {
                Some(TValue::Bool(b)) => Some(b),
                _ => None::<bool>,
            }),
    {
        proof {
            lemma_id_index_range(id);
        }
        let i = id_index_of(id);
        match &self.values[i] {
            Some(TValue::Bool(b)) => Some(*b),
            _ => None,
        }
    }

    /// Write a boolean identifier.
    pub fn set_info_bool(&mut self, id: IdInfo, value: bool)
        requires
            old(self).wf(),
            valid_id(id),
            format_of(id) == FormatInfo::Bool,
        ensures
            final(self).wf(),
            final(self).value_of(id) == Some(TValue::Bool(value)),
            forall|id2: IdInfo|
                valid_id(id2) && id2 != id ==> #[trigger] final(self).value_of(id2) == old(self).value_of(id2),
    {
        self.store(id, Some(TValue::Bool(value)));
    }

    /// Value of a character identifier, if set.
    pub fn get_option_info_char(&self, id: IdInfo) -> (r: Option<char>)
        requires
            self.wf(),
            valid_id(id),
            format_of(id) == FormatInfo::Char,
        ensures
            r == (match self.value_of(id) {
                Some(TValue::Char(c)) => Some(c),
                _ => None::<char>,
            }),
    {
        proof {
            lemma_id_index_range(id);
        }
        let i = id_index_of(id);
        match &self.values[i] {
            Some(TValue::Char(c)) => Some(*c),
            _ => None,
        }
    }

    /// Write a character identifier.
    pub fn set_info_char(&mut self, id: IdInfo, value: char)
        requires
            old(self).wf(),
            valid_id(id),
            format_of(id) == FormatInfo::Char,
        ensures
            final(self).wf(),
            final(self).value_of(id) == Some(TValue::Char(value)),
            forall|id2: IdInfo|
                valid_id(id2) && id2 != id ==> #[trigger] final(self).value_of(id2) == old(self).value_of(id2),
    {
        self.store(id, Some(TValue::Char(value)));
    }
}

impl Context {
    /// Value of a `u8` identifier, if set.
    pub fn get_option_info_u8(&self, id: IdInfo) -> (r: Option<u8>)
        requires
            self.wf(),
            valid_id(id),
            format_of(id) == FormatInfo::U8,
        ensures
            r == (match self.value_of(id) {
                Some(TValue::U8(v)) => Some(v),
                _ => None::<u8>,
            }),
    {
        proof {
            lemma_id_index_range(id);
        }
        let i = id_index_of(id);
        match &self.values[i] {
            Some(TValue::U8(v)) => Some(*v),
            _ => None,
        }
    }

    /// Value of a `u16` identifier, if set.
    pub fn get_option_info_u16(&self, id: IdInfo) -> (r: Option<u16>)
        requires
            self.wf(),
            valid_id(id),
            format_of(id) == FormatInfo::U16,
        ensures
            r == (match self.value_of(id) {
                Some(TValue::U16(v)) => Some(v),
                _ => None::<u16>,
            }),
    {
        proof {
            lemma_id_index_range(id);
        }
        let i = id_index_of(id);
        match &self.values[i] {
            Some(TValue::U16(v)) => Some(*v),
            _ => None,
        }
    }

    /// Value of a `u32` identifier, if set.
    pub fn get_option_info_u32(&self, id: IdInfo) -> (r: Option<u32>)
        requires
            self.wf(),
            valid_id(id),
            format_of(id) == FormatInfo::U32,
        ensures
            r == (match self.value_of(id) {
                Some(TValue::U32(v)) => Some(v),
                _ => None::<u32>,
            }),
    {
        proof {
            lemma_id_index_range(id);
        }
        let i = id_index_of(id);
        match &self.values[i] {
            Some(TValue::U32(v)) => Some(*v),
            _ => None,
        }
    }

    /// Value of a `u64` identifier, if set.
    pub fn get_option_info_u64(&self, id: IdInfo) -> (r: Option<u64>)
        requires
            self.wf(),
            valid_id(id),
            format_of(id) == FormatInfo::U64,
        ensures
            r == (match self.value_of(id) {
                Some(TValue::U64(v)) => Some(v),
                _ => None::<u64>,
            }),
    {
        proof {
            lemma_id_index_range(id);
        }
        let i = id_index_of(id);
        match &self.values[i] {
            Some(TValue::U64(v)) => Some(*v),
            _ => None,
        }
    }

    /// Value of a tenths-scaled identifier, if set.
    pub fn get_option_info_tenths(&self, id: IdInfo) -> (r: Option<i32>)
        requires
            self.wf(),
            valid_id(id),
            format_of(id) == FormatInfo::Tenths,
        ensures
            r == (match self.value_of(id) {
                Some(TValue::Tenths(v)) => Some(v),
                _ => None::<i32>,
            }),
    {
        proof {
            lemma_id_index_range(id);
        }
        let i = id_index_of(id);
        match &self.values[i] {
            Some(TValue::Tenths(v)) => Some(*v),
            _ => None,
        }
    }

    /// Value of a text identifier, if set.
    pub fn get_option_info_string(&self, id: IdInfo) -> (r: Option<String>)
        requires
            self.wf(),
            valid_id(id),
            format_of(id) is String,
        ensures
            (r matches Some(t) ==> self.value_of(id) matches Some(TValue::String(s)) && t@ == s@),
            (r is None ==> self.value_of(id) is None),
    {
        proof {
            lemma_id_index_range(id);
        }
        let i = id_index_of(id);
        match &self.values[i] {
            Some(TValue::String(s)) => Some(s.clone()),
            _ => None,
        }
    }

    /// Declared domain maximum of an identifier, if any.
    pub fn get_info_max(&self, id: IdInfo) -> (r: Option<u64>)
        ensures
            r == max_of(id),
    {
        match id {
            IdInfo::Predetermination => Some(99999u64),
            IdInfo::CodeProduit => Some(16u64),
            IdInfo::IndexJournalier => Some(999u64),
            IdInfo::Quantieme => Some(366u64),
            IdInfo::IndexFractionnement => Some(999u64),
            IdInfo::DateAAMMJJ => Some(991231u64),
            IdInfo::HeureHHMM => Some(2359u64),
            IdInfo::CodeProduitCompartiment(_) => Some(16u64),
            IdInfo::QuantiteCompartiment(_) => Some(99999u64),
            IdInfo::CodeProduitFinal => Some(16u64),
            IdInfo::NumeroCompartiment => Some(9u64),
            IdInfo::NumeroCompartimentFinal => Some(9u64),
            IdInfo::OrdreCompartiments => Some(987654321u64),
            IdInfo::NumeroFlexible => Some(3u64),
            IdInfo::NumeroFlexibleFinal => Some(3u64),
            _ => None,
        }
    }

    /// Write a `u8` identifier. A value over the declared maximum is
    /// silently dropped and the context is left as it was.
    pub fn set_info_u8(&mut self, id: IdInfo, value: u8)
        requires
            old(self).wf(),
            valid_id(id),
            format_of(id) == FormatInfo::U8,
        ensures
            final(self).wf(),
            exceeds_max(id, value as u64) ==> forall|id2: IdInfo|
                valid_id(id2) ==> #[trigger] final(self).value_of(id2) == old(self).value_of(id2),
            !exceeds_max(id, value as u64) ==> final(self).value_of(id) == Some(TValue::U8(value))
                && (forall|id2: IdInfo|
                valid_id(id2) && id2 != id ==> #[trigger] final(self).value_of(id2) == old(self).value_of(id2)),
    {
        if let Some(mx) = self.get_info_max(id) {
            if value as u64 > mx {
                return ;
            }
        }
        self.store(id, Some(TValue::U8(value)));
    }

    /// Write a `u16` identifier, under the same domain clamp.
    pub fn set_info_u16(&mut self, id: IdInfo, value: u16)
        requires
            old(self).wf(),
            valid_id(id),
            format_of(id) == FormatInfo::U16,
        ensures
            final(self).wf(),
            exceeds_max(id, value as u64) ==> forall|id2: IdInfo|
                valid_id(id2) ==> #[trigger] final(self).value_of(id2) == old(self).value_of(id2),
            !exceeds_max(id, value as u64) ==> final(self).value_of(id) == Some(
                TValue::U16(value),
            ) && (forall|id2: IdInfo|
                valid_id(id2) && id2 != id ==> #[trigger] final(self).value_of(id2) == old(self).value_of(id2)),
    {
        if let Some(mx) = self.get_info_max(id) {
            if value as u64 > mx {
                return ;
            }
        }
        self.store(id, Some(TValue::U16(value)));
    }

    /// Write a `u32` identifier, under the domain clamp. Writing the packed
    /// time of day also refreshes the hours-minutes projection, as far as it
    /// fits that identifier's own domain.
    pub fn set_info_u32(&mut self, id: IdInfo, value: u32)
        requires
            old(self).wf(),
            valid_id(id),
            format_of(id) == FormatInfo::U32,
        ensures
            final(self).wf(),
            exceeds_max(id, value as u64) ==> forall|id2: IdInfo|
                valid_id(id2) ==> #[trigger] final(self).value_of(id2) == old(self).value_of(id2),
            !exceeds_max(id, value as u64) && id != IdInfo::HeureHHMMSS ==> final(self).value_of(
                id,
            ) == Some(TValue::U32(value)) && (forall|id2: IdInfo|
                valid_id(id2) && id2 != id ==> #[trigger] final(self).value_of(id2) == old(self).value_of(id2)),
            !exceeds_max(id, value as u64) && id == IdInfo::HeureHHMMSS ==> {
                &&& final(self).value_of(id) == Some(TValue::U32(value))
                &&& (value / 100 <= 2359 ==> final(self).value_of(IdInfo::HeureHHMM) == Some(
                    TValue::U16((value / 100) as u16),
                ))
                &&& (value / 100 > 2359 ==> final(self).value_of(IdInfo::HeureHHMM) == old(self).value_of(IdInfo::HeureHHMM))
                &&& forall|id2: IdInfo|
                    valid_id(id2) && id2 != id && id2 != IdInfo::HeureHHMM
                        ==> #[trigger] final(self).value_of(id2) == old(self).value_of(id2)
            },
    {
        if let Some(mx) = self.get_info_max(id) {
            if value as u64 > mx {
                return ;
            }
        }
        self.store(id, Some(TValue::U32(value)));
        if let IdInfo::HeureHHMMSS = id {
            let heure_minute = value / 100;
            if heure_minute <= 2359 {
                self.store(IdInfo::HeureHHMM, Some(TValue::U16(heure_minute as u16)));
            }
        }
    }

    /// Write a `u64` identifier, under the domain clamp. Writing the packed
    /// date-time also refreshes the date-only, time-only and hours-minutes
    /// projections, each as far as it fits that identifier's own domain.
    pub fn set_info_u64(&mut self, id: IdInfo, value: u64)
        requires
            old(self).wf(),
            valid_id(id),
            format_of(id) == FormatInfo::U64,
        ensures
            final(self).wf(),
            exceeds_max(id, value) ==> forall|id2: IdInfo|
                valid_id(id2) ==> #[trigger] final(self).value_of(id2) == old(self).value_of(id2),
            !exceeds_max(id, value) && id != IdInfo::DateAAMMJJHeureHHMMSS ==> final(self).value_of(id) == Some(TValue::U64(value)) && (forall|id2: IdInfo|
                valid_id(id2) && id2 != id ==> #[trigger] final(self).value_of(id2) == old(self).value_of(id2)),
            !exceeds_max(id, value) && id == IdInfo::DateAAMMJJHeureHHMMSS ==> {
                let date = value / 1000000;
                let hms = value % 1000000;
                &&& final(self).value_of(id) == Some(TValue::U64(value))
                &&& (date <= 991231 ==> final(self).value_of(IdInfo::DateAAMMJJ) == Some(
                    TValue::U32(date as u32),
                ))
                &&& (date > 991231 ==> final(self).value_of(IdInfo::DateAAMMJJ) == old(self).value_of(IdInfo::DateAAMMJJ))
                &&& final(self).value_of(IdInfo::HeureHHMMSS) == Some(TValue::U32(hms as u32))
                &&& (hms / 100 <= 2359 ==> final(self).value_of(IdInfo::HeureHHMM) == Some(
                    TValue::U16((hms / 100) as u16),
                ))
                &&& (hms / 100 > 2359 ==> final(self).value_of(IdInfo::HeureHHMM) == old(self).value_of(IdInfo::HeureHHMM))
                &&& forall|id2: IdInfo|
                    valid_id(id2) && id2 != id && id2 != IdInfo::DateAAMMJJ && id2
                        != IdInfo::HeureHHMMSS && id2 != IdInfo::HeureHHMM
                        ==> #[trigger] final(self).value_of(id2) == old(self).value_of(id2)
            },
    {
        if let Some(mx) = self.get_info_max(id) {
            if value > mx {
                return ;
            }
        }
        self.store(id, Some(TValue::U64(value)));
        if let IdInfo::DateAAMMJJHeureHHMMSS = id {
            let date = value / 1000000;
            let hms = value % 1000000;
            if date <= 991231 {
                self.store(IdInfo::DateAAMMJJ, Some(TValue::U32(date as u32)));
            }
            self.store(IdInfo::HeureHHMMSS, Some(TValue::U32(hms as u32)));
            let heure_minute = hms / 100;
            if heure_minute <= 2359 {
                self.store(IdInfo::HeureHHMM, Some(TValue::U16(heure_minute as u16)));
            }
        }
    }

    /// Write a tenths-scaled identifier.
    pub fn set_info_tenths(&mut self, id: IdInfo, value: i32)
        requires
            old(self).wf(),
            valid_id(id),
            format_of(id) == FormatInfo::Tenths,
        ensures
            final(self).wf(),
            final(self).value_of(id) == Some(TValue::Tenths(value)),
            forall|id2: IdInfo|
                valid_id(id2) && id2 != id ==> #[trigger] final(self).value_of(id2) == old(self).value_of(id2),
    {
        self.store(id, Some(TValue::Tenths(value)));
    }

    /// Write a text identifier, cut to the identifier's declared width.
    pub fn set_info_string(&mut self, id: IdInfo, value: &str)
        requires
            old(self).wf(),
            valid_id(id),
            format_of(id) is String,
        ensures
            final(self).wf(),
            final(self).value_of(id) matches Some(TValue::String(t)) && t@ == clip(
                value@,
                width_of(id),
            ),
            forall|id2: IdInfo|
                valid_id(id2) && id2 != id ==> #[trigger] final(self).value_of(id2) == old(self).value_of(id2),
    {
        let w = match self.get_info_format(id) {
            FormatInfo::String(w) => w,
            _ => 0,
        };
        let len = value.unicode_len();
        if len > w {
            let cut = value.substring_char(0, w);
            self.store(id, Some(TValue::String(String::from_str(cut))));
        } else {
            self.store(id, Some(TValue::String(String::from_str(value))));
        }
    }

    /// Reset an identifier to unset.
    pub fn unset_info(&mut self, id: IdInfo)
        requires
            old(self).wf(),
            valid_id(id),
        ensures
            final(self).wf(),
            final(self).value_of(id) is None,
            forall|id2: IdInfo|
                valid_id(id2) && id2 != id ==> #[trigger] final(self).value_of(id2) == old(self).value_of(id2),
    {
        self.store(id, None);
    }
}

/// A write of this value to this identifier falls over the declared maximum
/// and is dropped.
pub open spec fn exceeds_max(id: IdInfo, v: u64) -> bool {
    match max_of(id) {
        Some(mx) => v > mx,
        None => false,
    }
}

/// Width declared for a text identifier.
pub open spec fn width_of(id: IdInfo) -> int {
    match format_of(id) {
        FormatInfo::String(w) => w as int,
        _ => 0,
    }
}

/// Text cut to a width.
pub open spec fn clip(s: Seq<char>, w: int) -> Seq<char> {
    if s.len() <= w {
        s
    } else {
        s.subrange(0, w)
    }
}

/// What a well-formed context guarantees of one slot: a set value has the
/// declared format and respects the declared maximum.
pub proof fn lemma_wf_entry(c: Context, id: IdInfo)
    requires
        c.wf(),
        valid_id(id),
    ensures
        entry_ok(id, c.value_of(id)),
{
}

/// What a clamped `u8` write leaves in its slot: the value, or whatever was
/// there when the value is over the identifier's maximum.
pub open spec fn set_u8_eff(oldv: Option<TValue>, newv: Option<TValue>, id: IdInfo, v: u8) -> bool {
    if exceeds_max(id, v as u64) {
        newv == oldv
    } else {
        newv == Some(TValue::U8(v))
    }
}

/// What a clamped `u16` write leaves in its slot.
pub open spec fn set_u16_eff(
    oldv: Option<TValue>,
    newv: Option<TValue>,
    id: IdInfo,
    v: u16,
) -> bool {
    if exceeds_max(id, v as u64) {
        newv == oldv
    } else {
        newv == Some(TValue::U16(v))
    }
}

/// What a clamped `u32` write leaves in its slot.
pub open spec fn set_u32_eff(
    oldv: Option<TValue>,
    newv: Option<TValue>,
    id: IdInfo,
    v: u32,
) -> bool {
    if exceeds_max(id, v as u64) {
        newv == oldv
    } else {
        newv == Some(TValue::U32(v))
    }
}

/// What a clamped `u64` write leaves in its slot.
pub open spec fn set_u64_eff(
    oldv: Option<TValue>,
    newv: Option<TValue>,
    id: IdInfo,
    v: u64,
) -> bool {
    if exceeds_max(id, v) {
        newv == oldv
    } else {
        newv == Some(TValue::U64(v))
    }
}


/// Human label of an identifier, as a character sequence.
pub open spec fn label_of(id: IdInfo) -> Seq<char> {
    match id {
        IdInfo::Ack => "Acquit message"@,
        IdInfo::Nack => "Refus message"@,
        IdInfo::EnMesurage => "En mesurage"@,
        IdInfo::CodeDefaut => "En Code défaut"@,
        IdInfo::ArretIntermediaire => "Arrêt intermédiaire"@,
        IdInfo::ForcagePetitDebit => "Forçage petit débit"@,
        IdInfo::ModeConnecte => "Mode connecté"@,
        IdInfo::Totalisateur => "Totalisateur"@,
        IdInfo::DebitInstant => "Débit instantané"@,
        IdInfo::QuantitePrincipale => "Quantité"@,
        IdInfo::QuantiteSecondaire => "Quantité secondaire"@,
        IdInfo::TemperatureInstant => "Quantité Température instantanée"@,
        IdInfo::TemperatureMoyen => "Température moyenne"@,
        IdInfo::Predetermination => "Prédétermination"@,
        IdInfo::CodeProduit => "Code produit"@,
        IdInfo::IndexSansRaz => "Index sans remise à zéro"@,
        IdInfo::IndexJournalier => "Index journalier"@,
        IdInfo::Quantieme => "Quantième"@,
        IdInfo::HeureHHMMDebut => "Heure de début (HHMM)"@,
        IdInfo::HeureHHMMFin => "Heure de fin (HHMM)"@,
        IdInfo::IdentificationTag => "Identification TAG"@,
        IdInfo::ReferenceEtImmatriculation => "Référence et immatriculation"@,
        IdInfo::VersionLogiciel => "Version du logiciel"@,
        IdInfo::DateAAMMJJHeureHHMMSS => "Date et Heure (AAMMJJHHMMSS)"@,
        IdInfo::TypeCompteur => "Type de compteur (0:Vm, 1:Vb, 2:Masse)"@,
        IdInfo::NbMesuragesQuantieme => "Nombre de mesurages pour un quantième"@,
        IdInfo::LibelleProduit => "Libellé produit"@,
        IdInfo::NbFractionnements => "Nombre de fractionnements"@,
        IdInfo::IndexFractionnement => "Index fractionnement"@,
        IdInfo::TypeDistribution => "(A)nticipation purge, li(B)ération, (C)hargement, pré(D)é, (L)ibre, (P)urge, (T)ransfert, (V)idange"@,
        IdInfo::DateAAMMJJ => "Date (AAMMJJ)"@,
        IdInfo::HeureHHMMSS => "Heure (HHMMSS)"@,
        IdInfo::HeureHHMM => "Heure (HHMM)"@,
        IdInfo::NbJEvents => "Nombre d'événements"@,
        IdInfo::DataJEvent => "Données techniques événement"@,
        IdInfo::LibelleJEvent => "Libellé événement"@,
        IdInfo::NombreCompartiments => "Nombre de compartiments"@,
        IdInfo::PresenceRemorque => "Présence d'un remorque"@,
        IdInfo::CodeProduitCollecteur => "Code produit dans le collecteur"@,
        IdInfo::CodeProduitPartieCommune => "Code produit dans la partie commune"@,
        IdInfo::CodeProduitFlexible1 => "Code produit dans le flexible #1"@,
        IdInfo::CodeProduitFlexible2 => "Code produit dans le flexible #2"@,
        IdInfo::CodeErreurMouvementProduit => "Code erreur (1:Non supporté, 2:En opération)"@,
        IdInfo::CodeProduitFinal => "Code produit final"@,
        IdInfo::NumeroCompartiment => "Numéro de compartiment"@,
        IdInfo::NumeroCompartimentFinal => "Numéro de compartiment final"@,
        IdInfo::OrdreCompartiments => "Ordre des compartiments"@,
        IdInfo::NumeroFlexible => "Numéro de flexible"@,
        IdInfo::NumeroFlexibleFinal => "Numéro de flexible final"@,
        IdInfo::FinirFlexibleVide => "Finir flexible vide"@,
        IdInfo::LibelleTableProduits(n) => "Libellé table produit #"@ + chars_of_bytes(dec_min(n as nat)),
        IdInfo::CodeProduitCompartiment(n) => "Code produit cpt #"@ + chars_of_bytes(dec_min(n as nat)),
        IdInfo::QuantiteCompartiment(n) => "Quantité cpt #"@ + chars_of_bytes(dec_min(n as nat)),
    }
}

/// Human label of an identifier.
pub fn get_info_label_for(id: IdInfo) -> (r: String)
    ensures
        r@ == label_of(id),
{
    match id {
        IdInfo::Ack => String::from_str("Acquit message"),
        IdInfo::Nack => String::from_str("Refus message"),
        IdInfo::EnMesurage => String::from_str("En mesurage"),
        IdInfo::CodeDefaut => String::from_str("En Code défaut"),
        IdInfo::ArretIntermediaire => String::from_str("Arrêt intermédiaire"),
        IdInfo::ForcagePetitDebit => String::from_str("Forçage petit débit"),
        IdInfo::ModeConnecte => String::from_str("Mode connecté"),
        IdInfo::Totalisateur => String::from_str("Totalisateur"),
        IdInfo::DebitInstant => String::from_str("Débit instantané"),
        IdInfo::QuantitePrincipale => String::from_str("Quantité"),
        IdInfo::QuantiteSecondaire => String::from_str("Quantité secondaire"),
        IdInfo::TemperatureInstant => String::from_str("Quantité Température instantanée"),
        IdInfo::TemperatureMoyen => String::from_str("Température moyenne"),
        IdInfo::Predetermination => String::from_str("Prédétermination"),
        IdInfo::CodeProduit => String::from_str("Code produit"),
        IdInfo::IndexSansRaz => String::from_str("Index sans remise à zéro"),
        IdInfo::IndexJournalier => String::from_str("Index journalier"),
        IdInfo::Quantieme => String::from_str("Quantième"),
        IdInfo::HeureHHMMDebut => String::from_str("Heure de début (HHMM)"),
        IdInfo::HeureHHMMFin => String::from_str("Heure de fin (HHMM)"),
        IdInfo::IdentificationTag => String::from_str("Identification TAG"),
        IdInfo::ReferenceEtImmatriculation => String::from_str("Référence et immatriculation"),
        IdInfo::VersionLogiciel => String::from_str("Version du logiciel"),
        IdInfo::DateAAMMJJHeureHHMMSS => String::from_str("Date et Heure (AAMMJJHHMMSS)"),
        IdInfo::TypeCompteur => String::from_str("Type de compteur (0:Vm, 1:Vb, 2:Masse)"),
        IdInfo::NbMesuragesQuantieme => String::from_str("Nombre de mesurages pour un quantième"),
        IdInfo::LibelleProduit => String::from_str("Libellé produit"),
        IdInfo::NbFractionnements => String::from_str("Nombre de fractionnements"),
        IdInfo::IndexFractionnement => String::from_str("Index fractionnement"),
        IdInfo::TypeDistribution => String::from_str("(A)nticipation purge, li(B)ération, (C)hargement, pré(D)é, (L)ibre, (P)urge, (T)ransfert, (V)idange"),
        IdInfo::DateAAMMJJ => String::from_str("Date (AAMMJJ)"),
        IdInfo::HeureHHMMSS => String::from_str("Heure (HHMMSS)"),
        IdInfo::HeureHHMM => String::from_str("Heure (HHMM)"),
        IdInfo::NbJEvents => String::from_str("Nombre d'événements"),
        IdInfo::DataJEvent => String::from_str("Données techniques événement"),
        IdInfo::LibelleJEvent => String::from_str("Libellé événement"),
        IdInfo::NombreCompartiments => String::from_str("Nombre de compartiments"),
        IdInfo::PresenceRemorque => String::from_str("Présence d'un remorque"),
        IdInfo::CodeProduitCollecteur => String::from_str("Code produit dans le collecteur"),
        IdInfo::CodeProduitPartieCommune => String::from_str("Code produit dans la partie commune"),
        IdInfo::CodeProduitFlexible1 => String::from_str("Code produit dans le flexible #1"),
        IdInfo::CodeProduitFlexible2 => String::from_str("Code produit dans le flexible #2"),
        IdInfo::CodeErreurMouvementProduit => String::from_str("Code erreur (1:Non supporté, 2:En opération)"),
        IdInfo::CodeProduitFinal => String::from_str("Code produit final"),
        IdInfo::NumeroCompartiment => String::from_str("Numéro de compartiment"),
        IdInfo::NumeroCompartimentFinal => String::from_str("Numéro de compartiment final"),
        IdInfo::OrdreCompartiments => String::from_str("Ordre des compartiments"),
        IdInfo::NumeroFlexible => String::from_str("Numéro de flexible"),
        IdInfo::NumeroFlexibleFinal => String::from_str("Numéro de flexible final"),
        IdInfo::FinirFlexibleVide => String::from_str("Finir flexible vide"),
        IdInfo::LibelleTableProduits(n) => String::from_str("Libellé table produit #").concat(crate::field::dec_string(n as u64).as_str()),
        IdInfo::CodeProduitCompartiment(n) => String::from_str("Code produit cpt #").concat(crate::field::dec_string(n as u64).as_str()),
        IdInfo::QuantiteCompartiment(n) => String::from_str("Quantité cpt #").concat(crate::field::dec_string(n as u64).as_str()),
    }
}

impl Default for Context {
    /// A fresh context: every identifier unset.
    fn default() -> (r: Self)
        ensures
            r.wf(),
            forall|id: IdInfo| valid_id(id) ==> !(#[trigger] r.is_set(id)),
    {
        Context::new()
    }
}

/// Is this character a decimal digit?
pub open spec fn digit_char(c: char) -> bool {
    '0' <= c <= '9'
}

/// Every character of the text is a decimal digit.
pub open spec fn all_digit_chars(s: Seq<char>) -> bool {
    forall|i: int| 0 <= i < s.len() ==> digit_char(s[i])
}

/// Number spelled by a text of decimal digits, most significant first.
pub open spec fn chars_dec_value(s: Seq<char>) -> int
    decreases s.len(),
{
    if s.len() == 0 {
        0
    } else {
        chars_dec_value(s.drop_last()) * 10 + (s.last() as int - 48)
    }
}

/// The number an ordinary decimal text spells: at least one character, all
/// of them digits.
pub open spec fn parse_uint(s: Seq<char>) -> Option<int> {
    if s.len() > 0 && all_digit_chars(s) {
        Some(chars_dec_value(s))
    } else {
        None
    }
}

/// Index of the first `'.'` of a text (the length when there is none).
pub open spec fn dot_index(s: Seq<char>) -> int
    decreases s.len(),
{
    if s.len() == 0 {
        0
    } else if s[0] == '.' {
        0
    } else {
        1 + dot_index(s.drop_first())
    }
}

/// The tenths a decimal text with an optional sign and an optional decimal
/// point spells; fractional digits beyond the first are dropped.
pub open spec fn parse_tenths(s: Seq<char>) -> Option<int> {
    if s.len() > 0 && s[0] == '-' {
        match parse_tenths_mag(s.drop_first()) {
            Some(v) => Some(-v),
            None => None,
        }
    } else {
        parse_tenths_mag(s)
    }
}

/// The tenths an unsigned decimal text spells.
pub open spec fn parse_tenths_mag(s: Seq<char>) -> Option<int> {
    let d = dot_index(s);
    if d == 0 || !all_digit_chars(s.subrange(0, d)) {
        None
    } else if d == s.len() {
        Some(10 * chars_dec_value(s))
    } else {
        let frac = s.subrange(d + 1, s.len() as int);
        if frac.len() == 0 || !all_digit_chars(frac) {
            None
        } else {
            Some(10 * chars_dec_value(s.subrange(0, d)) + (frac[0] as int - 48))
        }
    }
}

/// Text of a value, as the generic editing surface shows it: a yes/no token
/// for a boolean, plain decimal for the integers, one decimal place for a
/// tenths-scaled value, the text itself without trailing spaces.
pub open spec fn render_value(tv: TValue) -> Seq<char> {
    match tv {
        TValue::Bool(b) => if b {
            "Oui"@
        } else {
            "Non"@
        },
        TValue::Char(c) => seq![c],
        TValue::U8(v) => chars_of_bytes(dec_min(v as nat)),
        TValue::U16(v) => chars_of_bytes(dec_min(v as nat)),
        TValue::U32(v) => chars_of_bytes(dec_min(v as nat)),
        TValue::U64(v) => chars_of_bytes(dec_min(v as nat)),
        TValue::Tenths(t) => tenths_chars(t as int),
        TValue::String(s) => crate::ascii::trim_end_spaces(s@),
    }
}

/// Text of a tenths-scaled value: optional sign, whole part, a point, one
/// fractional digit.
pub open spec fn tenths_chars(t: int) -> Seq<char> {
    let m = if t < 0 {
        -t
    } else {
        t
    };
    (if t < 0 {
        seq!['-']
    } else {
        Seq::empty()
    }) + chars_of_bytes(dec_min((m / 10) as nat)) + seq!['.'] + chars_of_bytes(
        dec_min((m % 10) as nat),
    )
}

/// If everything before `i` is no dot and `i` holds one, `i` is the first.
pub proof fn lemma_dot_index_at(s: Seq<char>, i: int)
    requires
        0 <= i <= s.len(),
        forall|l: int| 0 <= l < i ==> s[l] != '.',
        i < s.len() ==> s[i] == '.',
    ensures
        dot_index(s) == i,
    decreases s.len(),
{
    if i > 0 {
        lemma_dot_index_at(s.drop_first(), i - 1);
    } else {
        if s.len() > 0 && i == s.len() {
        }
    }
}

/// In a run of digit characters, a prefix never spells more than the whole,
/// and nothing negative.
pub proof fn lemma_chars_dec_value_prefix(s: Seq<char>, i: int)
    requires
        all_digit_chars(s),
        0 <= i <= s.len(),
    ensures
        0 <= chars_dec_value(s.subrange(0, i)) <= chars_dec_value(s),
    decreases s.len() - i,
{
    if i == s.len() {
        assert(s.subrange(0, i) =~= s);
        lemma_chars_dec_value_nonneg(s);
    } else {
        lemma_chars_dec_value_prefix(s, i + 1);
        let p = s.subrange(0, i + 1);
        assert(p.drop_last() =~= s.subrange(0, i));
        lemma_chars_dec_value_nonneg(s.subrange(0, i));
        assert(chars_dec_value(s.subrange(0, i)) * 10 >= chars_dec_value(s.subrange(0, i))) by (nonlinear_arith)
            requires
                chars_dec_value(s.subrange(0, i)) >= 0,
        ;
    }
}

/// A run of digit characters never spells a negative number.
pub proof fn lemma_chars_dec_value_nonneg(s: Seq<char>)
    requires
        all_digit_chars(s),
    ensures
        chars_dec_value(s) >= 0,
    decreases s.len(),
{
    if s.len() > 0 {
        assert(all_digit_chars(s.drop_last()));
        lemma_chars_dec_value_nonneg(s.drop_last());
        assert(chars_dec_value(s.drop_last()) * 10 >= 0) by (nonlinear_arith)
            requires
                chars_dec_value(s.drop_last()) >= 0,
        ;
    }
}

/// Parse an unsigned decimal text, capped: `None` when a character is no
/// digit, the text is empty, or the value exceeds the cap.
#[verifier::loop_isolation(false)]
fn parse_uint_upto(s: &str, cap: u64) -> (r: Option<u64>)
    requires
        cap >= 9,
    ensures
        r matches Some(v) ==> parse_uint(s@) == Some(v as int) && v <= cap,
        r is None ==> (match parse_uint(s@) {
            Some(v) => v > cap,
            None => true,
        }),
{
    let len = s.unicode_len();
    if len == 0 {
        return None;
    }
    let mut acc: u64 = 0;
    let mut i: usize = 0;
    while i < len
        invariant
            len == s@.len(),
            0 < len,
            0 <= i <= len,
            all_digit_chars(s@.subrange(0, i as int)),
            acc == chars_dec_value(s@.subrange(0, i as int)),
            acc <= cap,
            cap <= u64::MAX,
        decreases len - i,
    {
        let c = s.get_char(i);
        let cv = c as u32;
        if cv < 48 || cv > 57 {
            proof {
                assert(!digit_char(s@[i as int]));
            }
            return None;
        }
        let d = (cv - 48) as u64;
        proof {
            assert(s@.subrange(0, i + 1).drop_last() =~= s@.subrange(0, i as int));
            assert(all_digit_chars(s@.subrange(0, i + 1)));
        }
        if acc > (cap - d) / 10 {
            proof {
                let p = s@.subrange(0, i + 1);
                assert(chars_dec_value(p) == acc * 10 + d);
                assert(acc * 10 + d > cap) by (nonlinear_arith)
                    requires
                        acc > (cap - d) / 10,
                        0 <= d <= 9,
                        d <= cap,
                        acc <= u64::MAX,
                        cap <= u64::MAX,
                ;
                if all_digit_chars(s@) {
                    lemma_chars_dec_value_prefix(s@, i + 1);
                }
            }
            return None;
        }
        acc = acc * 10 + d;
        i = i + 1;
    }
    proof {
        assert(s@.subrange(0, len as int) =~= s@);
    }
    Some(acc)
}

/// No identifier changed between the two context states.
pub open spec fn unchanged_ctx(oldc: Context, newc: Context) -> bool {
    forall|id2: IdInfo|
        valid_id(id2) ==> #[trigger] newc.value_of(id2) == oldc.value_of(id2)
}

/// What a `u32` write leaves across the whole context: dropped over the
/// maximum, otherwise written, with the hours-minutes projection refreshed
/// when the packed time of day was written.
pub open spec fn u32_write_eff(oldc: Context, newc: Context, id: IdInfo, value: u32) -> bool {
    if exceeds_max(id, value as u64) {
        unchanged_ctx(oldc, newc)
    } else if id != IdInfo::HeureHHMMSS {
        newc.value_of(id) == Some(TValue::U32(value)) && (forall|id2: IdInfo|
            valid_id(id2) && id2 != id ==> #[trigger] newc.value_of(id2) == oldc.value_of(id2))
    } else {
        &&& newc.value_of(id) == Some(TValue::U32(value))
        &&& (value / 100 <= 2359 ==> newc.value_of(IdInfo::HeureHHMM) == Some(
            TValue::U16((value / 100) as u16),
        ))
        &&& (value / 100 > 2359 ==> newc.value_of(IdInfo::HeureHHMM) == oldc.value_of(
            IdInfo::HeureHHMM,
        ))
        &&& (forall|id2: IdInfo|
            valid_id(id2) && id2 != id && id2 != IdInfo::HeureHHMM ==> #[trigger] newc.value_of(
                id2,
            ) == oldc.value_of(id2))
    }
}

/// What a `u64` write leaves across the whole context: dropped over the
/// maximum, otherwise written, with the date, time and hours-minutes
/// projections refreshed when the packed date-time was written.
pub open spec fn u64_write_eff(oldc: Context, newc: Context, id: IdInfo, value: u64) -> bool {
    if exceeds_max(id, value) {
        unchanged_ctx(oldc, newc)
    } else if id != IdInfo::DateAAMMJJHeureHHMMSS {
        newc.value_of(id) == Some(TValue::U64(value)) && (forall|id2: IdInfo|
            valid_id(id2) && id2 != id ==> #[trigger] newc.value_of(id2) == oldc.value_of(id2))
    } else {
        let date = value / 1000000;
        let hms = value % 1000000;
        &&& newc.value_of(id) == Some(TValue::U64(value))
        &&& (date <= 991231 ==> newc.value_of(IdInfo::DateAAMMJJ) == Some(
            TValue::U32(date as u32),
        ))
        &&& (date > 991231 ==> newc.value_of(IdInfo::DateAAMMJJ) == oldc.value_of(
            IdInfo::DateAAMMJJ,
        ))
        &&& newc.value_of(IdInfo::HeureHHMMSS) == Some(TValue::U32(hms as u32))
        &&& (hms / 100 <= 2359 ==> newc.value_of(IdInfo::HeureHHMM) == Some(
            TValue::U16((hms / 100) as u16),
        ))
        &&& (hms / 100 > 2359 ==> newc.value_of(IdInfo::HeureHHMM) == oldc.value_of(
            IdInfo::HeureHHMM,
        ))
        &&& (forall|id2: IdInfo|
            valid_id(id2) && id2 != id && id2 != IdInfo::DateAAMMJJ && id2 != IdInfo::HeureHHMMSS
                && id2 != IdInfo::HeureHHMM ==> #[trigger] newc.value_of(id2) == oldc.value_of(
                id2,
            ))
    }
}

impl Context {
    /// Human label of an identifier.
    pub fn get_info_label(&self, id: IdInfo) -> (r: String)
        ensures
            r@ == label_of(id),
    {
        get_info_label_for(id)
    }

    /// Text of an identifier's value, or the fallback text when it is
    /// unset: a yes/no token for a boolean, plain decimal for the integers,
    /// one decimal place for a tenths-scaled value, the stored text without
    /// its trailing spaces.
    pub fn get_info_to_string(&self, id: IdInfo, output_none: &str) -> (r: String)
        requires
            self.wf(),
            valid_id(id),
        ensures
            self.value_of(id) is None ==> r@ == output_none@,
            self.value_of(id) matches Some(tv) ==> r@ == render_value(tv),
    {
        proof {
            lemma_id_index_range(id);
        }
        let i = id_index_of(id);
        match &self.values[i] {
            None => String::from_str(output_none),
            Some(TValue::Bool(value)) => {
                if *value {
                    String::from_str("Oui")
                } else {
                    String::from_str("Non")
                }
            },
            Some(TValue::Char(value)) => crate::ascii::char_to_string(*value),
            Some(TValue::U8(value)) => crate::field::dec_string(*value as u64),
            Some(TValue::U16(value)) => crate::field::dec_string(*value as u64),
            Some(TValue::U32(value)) => crate::field::dec_string(*value as u64),
            Some(TValue::U64(value)) => crate::field::dec_string(*value),
            Some(TValue::Tenths(value)) => {
                let v = *value;
                let mag: u64 = if v < 0 {
                    ((-(v + 1)) as u64) + 1
                } else {
                    v as u64
                };
                let head = if v < 0 {
                    String::from_str("-")
                } else {
                    String::new()
                };
                let r = head.concat(crate::field::dec_string(mag / 10).as_str()).concat(".")
                    .concat(crate::field::dec_string(mag % 10).as_str());
                proof {
                    reveal_strlit("-");
                    reveal_strlit(".");
                    assert(r@ =~= tenths_chars(v as int));
                }
                r
            },
            Some(TValue::String(value)) => crate::ascii::trim_end_str(value.as_str()),
        }
    }

    /// Write an identifier's value from its textual form, as the generic
    /// editing surface hands it over: an empty text resets the identifier
    /// to unset; a boolean becomes true on a leading `'o'`, `'O'` or `'1'`;
    /// a character takes the first character; numbers parse as plain
    /// decimal and are dropped when malformed, too large, or over the
    /// identifier's domain; a tenths-scaled value takes an optional sign
    /// and one decimal place; a text is stored without its trailing spaces,
    /// cut to the declared width.
    pub fn set_info_from_string(&mut self, id: IdInfo, input: &str)
        requires
            old(self).wf(),
            valid_id(id),
        ensures
            final(self).wf(),
            input@.len() == 0 ==> final(self).value_of(id) is None && (forall|id2: IdInfo|
                valid_id(id2) && id2 != id ==> #[trigger] final(self).value_of(id2) == old(
                    self,
                ).value_of(id2)),
            input@.len() > 0 && format_of(id) == FormatInfo::Bool ==> final(self).value_of(id)
                == Some(
                TValue::Bool(input@[0] == 'o' || input@[0] == 'O' || input@[0] == '1'),
            ) && (forall|id2: IdInfo|
                valid_id(id2) && id2 != id ==> #[trigger] final(self).value_of(id2) == old(
                    self,
                ).value_of(id2)),
            input@.len() > 0 && format_of(id) == FormatInfo::Char ==> final(self).value_of(id)
                == Some(TValue::Char(input@[0])) && (forall|id2: IdInfo|
                valid_id(id2) && id2 != id ==> #[trigger] final(self).value_of(id2) == old(
                    self,
                ).value_of(id2)),
            input@.len() > 0 && format_of(id) == FormatInfo::U8 ==> (match parse_uint(input@) {
                Some(v) => if 0 <= v <= u8::MAX {
                    set_u8_eff(
                        old(self).value_of(id),
                        final(self).value_of(id),
                        id,
                        v as u8,
                    ) && (forall|id2: IdInfo|
                        valid_id(id2) && id2 != id ==> #[trigger] final(self).value_of(id2) == old(
                            self,
                        ).value_of(id2))
                } else {
                    forall|id2: IdInfo|
                        valid_id(id2) ==> #[trigger] final(self).value_of(id2) == old(
                            self,
                        ).value_of(id2)
                },
                None => forall|id2: IdInfo|
                    valid_id(id2) ==> #[trigger] final(self).value_of(id2) == old(self).value_of(
                        id2,
                    ),
            }),
            input@.len() > 0 && format_of(id) == FormatInfo::U16 ==> (match parse_uint(input@) {
                Some(v) => if 0 <= v <= u16::MAX {
                    set_u16_eff(
                        old(self).value_of(id),
                        final(self).value_of(id),
                        id,
                        v as u16,
                    ) && (forall|id2: IdInfo|
                        valid_id(id2) && id2 != id ==> #[trigger] final(self).value_of(id2) == old(
                            self,
                        ).value_of(id2))
                } else {
                    forall|id2: IdInfo|
                        valid_id(id2) ==> #[trigger] final(self).value_of(id2) == old(
                            self,
                        ).value_of(id2)
                },
                None => forall|id2: IdInfo|
                    valid_id(id2) ==> #[trigger] final(self).value_of(id2) == old(self).value_of(
                        id2,
                    ),
            }),
            input@.len() > 0 && format_of(id) == FormatInfo::U32 ==> (match parse_uint(input@) {
                Some(v) => if 0 <= v <= u32::MAX {
                    u32_write_eff(*old(self), *final(self), id, v as u32)
                } else {
                    unchanged_ctx(*old(self), *final(self))
                },
                None => unchanged_ctx(*old(self), *final(self)),
            }),
            input@.len() > 0 && format_of(id) == FormatInfo::U64 ==> (match parse_uint(input@) {
                Some(v) => if 0 <= v <= u64::MAX {
                    u64_write_eff(*old(self), *final(self), id, v as u64)
                } else {
                    unchanged_ctx(*old(self), *final(self))
                },
                None => unchanged_ctx(*old(self), *final(self)),
            }),
            input@.len() > 0 && format_of(id) == FormatInfo::Tenths ==> (match parse_tenths(
                input@,
            ) {
                Some(v) => if i32::MIN <= v <= i32::MAX {
                    final(self).value_of(id) == Some(TValue::Tenths(v as i32)) && (forall|
                        id2: IdInfo,
                    |
                        valid_id(id2) && id2 != id ==> #[trigger] final(self).value_of(id2) == old(
                            self,
                        ).value_of(id2))
                } else {
                    unchanged_ctx(*old(self), *final(self))
                },
                None => unchanged_ctx(*old(self), *final(self)),
            }),
            input@.len() > 0 && format_of(id) is String ==> (final(self).value_of(id) matches Some(
                TValue::String(t),
            ) && t@ == clip(crate::ascii::trim_end_spaces(input@), width_of(id)) && (forall|
                id2: IdInfo,
            |
                valid_id(id2) && id2 != id ==> #[trigger] final(self).value_of(id2) == old(
                    self,
                ).value_of(id2))),
    {
        let len = input.unicode_len();
        if len == 0 {
            self.unset_info(id);
            return ;
        }
        match self.get_info_format(id) {
            FormatInfo::Bool => {
                let first = input.get_char(0);
                let value = first == 'o' || first == 'O' || first == '1';
                self.set_info_bool(id, value);
            },
            FormatInfo::Char => {
                let first = input.get_char(0);
                self.set_info_char(id, first);
            },
            FormatInfo::U8 => {
                if let Some(v) = parse_uint_upto(input, u8::MAX as u64) {
                    self.set_info_u8(id, v as u8);
                }
            },
            FormatInfo::U16 => {
                if let Some(v) = parse_uint_upto(input, u16::MAX as u64) {
                    self.set_info_u16(id, v as u16);
                }
            },
            FormatInfo::U32 => {
                if let Some(v) = parse_uint_upto(input, u32::MAX as u64) {
                    self.set_info_u32(id, v as u32);
                }
            },
            FormatInfo::U64 => {
                if let Some(v) = parse_uint_upto(input, u64::MAX) {
                    self.set_info_u64(id, v);
                }
            },
            FormatInfo::Tenths => {
                if let Some(v) = parse_tenths_str(input) {
                    self.set_info_tenths(id, v);
                }
            },
            FormatInfo::String(_) => {
                let trimmed = crate::ascii::trim_end_str(input);
                self.set_info_string(id, trimmed.as_str());
            },
        }
    }
}

/// Parse a tenths-scaled value from its decimal text: optional `'-'`, the
/// whole part, an optional point and fractional digits of which the first
/// counts. `None` when malformed or outside the `i32` range.
#[verifier::rlimit(30)]
#[verifier::loop_isolation(false)]
fn parse_tenths_str(s: &str) -> (r: Option<i32>)
    ensures
        r matches Some(v) ==> parse_tenths(s@) == Some(v as int),
        r is None ==> (match parse_tenths(s@) {
            Some(v) => !(i32::MIN <= v <= i32::MAX),
            None => true,
        }),
{
    let len = s.unicode_len();
    let negative = len > 0 && s.get_char(0) == '-';
    let start: usize = if negative {
        1
    } else {
        0
    };
    let ghost t = if negative {
        s@.drop_first()
    } else {
        s@
    };
    proof {
        assert(t =~= s@.subrange(start as int, s@.len() as int));
    }
    // find the first point
    let mut dot: usize = start;
    while dot < len && s.get_char(dot) != '.'
        invariant
            start <= dot <= len,
            forall|l: int| start <= l < dot ==> s@[l] != '.',
        decreases len - dot,
    {
        dot = dot + 1;
    }
    proof {
        assert forall|l: int| 0 <= l < dot - start implies t[l] != '.' by {
            assert(t[l] == s@[l + start]);
        }
        if dot < len {
            assert(t[dot - start] == s@[dot as int]);
        }
        lemma_dot_index_at(t, dot - start);
    }
    if dot == start {
        // no whole part
        return None;
    }
    // whole part
    let whole = s.substring_char(start, dot);
    proof {
        assert(whole@ =~= t.subrange(0, dot - start));
    }
    let mag10: u64 = match parse_uint_upto(whole, (i32::MAX as u64) / 10) {
        Some(v) => 10 * v,
        None => {
            proof {
                if all_digit_chars(whole@) {
                    lemma_chars_dec_value_nonneg(whole@);
                }
            }
            return None;
        },
    };
    // fractional part: the first digit counts, the rest must be digits too
    let mut value: u64 = mag10;
    if dot < len {
        if dot + 1 == len {
            return None;
        }
        let mut j: usize = dot + 1;
        while j < len
            invariant
                len == s@.len(),
                dot + 1 <= j <= len,
                forall|l: int| dot + 1 <= l < j ==> digit_char(#[trigger] s@[l]),
            decreases len - j,
        {
            let c = s.get_char(j);
            let cv = c as u32;
            if cv < 48 || cv > 57 {
                proof {
                    let frac = t.subrange(dot - start + 1, t.len() as int);
                    assert(frac[j - dot - 1] == s@[j as int]);
                    assert(!digit_char(frac[j - dot - 1]));
                }
                return None;
            }
            j = j + 1;
        }
        let d0 = s.get_char(dot + 1);
        proof {
            let frac = t.subrange(dot - start + 1, t.len() as int);
            assert(frac[0] == s@[dot + 1]);
            assert(digit_char(s@[dot + 1]));
            assert forall|l: int| 0 <= l < frac.len() implies digit_char(#[trigger] frac[l]) by {
                assert(frac[l] == s@[l + dot + 1]);
            }
        }
        value = mag10 + ((d0 as u32 - 48) as u64);
    }
    let signed: i64 = if negative {
        -(value as i64)
    } else {
        value as i64
    };
    if signed < i32::MIN as i64 || signed > i32::MAX as i64 {
        return None;
    }
    if negative {
        Some(signed as i32)
    } else {
        Some(signed as i32)
    }
}

} // verus!
