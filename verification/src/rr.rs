//! Resource-record types and classes.

use vstd::prelude::*;

verus! {

/// Type of a resource record. The four types that the resolvers look at are
/// told apart; any other type is carried along by its mnemonic.
#[derive(Debug, PartialEq, Eq)]
pub enum RecordType {
    /// IPv4 address record.
    A,
    /// IPv6 address record.
    AAAA,
    /// Name server record.
    NS,
    /// Start of authority record.
    SOA,
    /// Any other type, kept verbatim.
    Other(String),
}

/// Mathematical value of a [`RecordType`].
pub enum RecordTypeView {
    A,
    AAAA,
    NS,
    SOA,
    Other(Seq<char>),
}

impl View for RecordType {
    type V = RecordTypeView;

    open spec fn view(&self) -> RecordTypeView {
        match self {
            RecordType::A => RecordTypeView::A,
            RecordType::AAAA => RecordTypeView::AAAA,
            RecordType::NS => RecordTypeView::NS,
            RecordType::SOA => RecordTypeView::SOA,
            RecordType::Other(name) => RecordTypeView::Other(name@),
        }
    }
}

impl DeepView for RecordType {
    type V = RecordTypeView;

    open spec fn deep_view(&self) -> RecordTypeView {
        self@
    }
}

impl Clone for RecordType {
    fn clone(&self) -> (r: Self)
        ensures
            r@ == self@,
    {
        match self {
            RecordType::A => RecordType::A,
            RecordType::AAAA => RecordType::AAAA,
            RecordType::NS => RecordType::NS,
            RecordType::SOA => RecordType::SOA,
            RecordType::Other(name) => RecordType::Other(name.clone()),
        }
    }
}

impl RecordType {
    /// Whether this is the type `A`.
    pub fn is_a(&self) -> (r: bool)
        ensures
            r == (self@ == RecordTypeView::A),
    {
        match self {
            RecordType::A => true,
            _ => false,
        }
    }

    /// Whether this is the type `AAAA`.
    pub fn is_aaaa(&self) -> (r: bool)
        ensures
            r == (self@ == RecordTypeView::AAAA),
    {
        match self {
            RecordType::AAAA => true,
            _ => false,
        }
    }

    /// Whether this is the type `NS`.
    pub fn is_ns(&self) -> (r: bool)
        ensures
            r == (self@ == RecordTypeView::NS),
    {
        match self {
            RecordType::NS => true,
            _ => false,
        }
    }

    /// Whether this is the type `SOA`.
    pub fn is_soa(&self) -> (r: bool)
        ensures
            r == (self@ == RecordTypeView::SOA),
    {
        match self {
            RecordType::SOA => true,
            _ => false,
        }
    }

    /// Whether two types are the same type.
    pub fn same(&self, other: &RecordType) -> (r: bool)
        ensures
            r == (self@ == other@),
    {
        match (self, other) {
            (RecordType::A, RecordType::A) => true,
            (RecordType::AAAA, RecordType::AAAA) => true,
            (RecordType::NS, RecordType::NS) => true,
            (RecordType::SOA, RecordType::SOA) => true,
            (RecordType::Other(a), RecordType::Other(b)) => *a == *b,
            _ => false,
        }
    }
}

/// Class of a resource record: the Internet class, or another one kept
/// verbatim.
#[derive(Debug, PartialEq, Eq)]
pub enum Class {
    /// Internet.
    IN,
    /// Any other class, kept verbatim.
    Other(String),
}

/// Mathematical value of a [`Class`].
pub enum ClassView {
    IN,
    Other(Seq<char>),
}

impl View for Class {
    type V = ClassView;

    open spec fn view(&self) -> ClassView {
        match self {
            Class::IN => ClassView::IN,
            Class::Other(name) => ClassView::Other(name@),
        }
    }
}

impl DeepView for Class {
    type V = ClassView;

    open spec fn deep_view(&self) -> ClassView {
        self@
    }
}

impl Clone for Class {
    fn clone(&self) -> (r: Self)
        ensures
            r@ == self@,
    {
        match self {
            Class::IN => Class::IN,
            Class::Other(name) => Class::Other(name.clone()),
        }
    }
}

impl Class {
    /// Whether two classes are the same class.
    pub fn same(&self, other: &Class) -> (r: bool)
        ensures
            r == (self@ == other@),
    {
        match (self, other) {
            (Class::IN, Class::IN) => true,
            (Class::Other(a), Class::Other(b)) => *a == *b,
            _ => false,
        }
    }

    /// Whether this is the Internet class.
    pub fn is_internet(&self) -> (r: bool)
        ensures
            r == (self@ == ClassView::IN),
    {
        match self {
            Class::IN => true,
            _ => false,
        }
    }
}

} // verus!
