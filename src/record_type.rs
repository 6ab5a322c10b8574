//! The resource record types of RFC 1035 and their numeric codes.
use vstd::prelude::*;

verus! {

/// A resource record type, as named in RFC 1035.
#[derive(Debug, Clone, Copy, PartialEq, Eq, Structural)]
pub enum ResourceRecordType {
    /// a host address
    A,
    /// an authoritative name server
    NS,
    /// a mail destination (Obsolete - use MX)
    MD,
    /// a mail forwarder (Obsolete - use MX)
    MF,
    /// the canonical name for an alias
    CNAME,
    /// marks the start of a zone of authority
    SOA,
    /// a mailbox domain name (EXPERIMENTAL)
    MB,
    /// a mail group member (EXPERIMENTAL)
    MG,
    /// a mail rename domain name (EXPERIMENTAL)
    MR,
    /// a null RR (EXPERIMENTAL)
    NULL,
    /// a well known service description
    WKS,
    /// a domain name pointer
    PTR,
    /// host information
    HINFO,
    /// mailbox or mail list information
    MINFO,
    /// mail exchange
    MX,
    /// text strings
    TXT,
}

impl ResourceRecordType {
    /// The numeric code of this type on the wire.
    pub open spec fn spec_code(self) -> u16 {
        match self {
            ResourceRecordType::A => 1,
            ResourceRecordType::NS => 2,
            ResourceRecordType::MD => 3,
            ResourceRecordType::MF => 4,
            ResourceRecordType::CNAME => 5,
            ResourceRecordType::SOA => 6,
            ResourceRecordType::MB => 7,
            ResourceRecordType::MG => 8,
            ResourceRecordType::MR => 9,
            ResourceRecordType::NULL => 10,
            ResourceRecordType::WKS => 11,
            ResourceRecordType::PTR => 12,
            ResourceRecordType::HINFO => 13,
            ResourceRecordType::MINFO => 14,
            ResourceRecordType::MX => 15,
            ResourceRecordType::TXT => 16,
        }
    }

    /// The numeric code of this type on the wire.
    pub fn code(&self) -> (r: u16)
        ensures
            r == self.spec_code(),
    {
        match self {
            ResourceRecordType::A => 1,
            ResourceRecordType::NS => 2,
            ResourceRecordType::MD => 3,
            ResourceRecordType::MF => 4,
            ResourceRecordType::CNAME => 5,
            ResourceRecordType::SOA => 6,
            ResourceRecordType::MB => 7,
            ResourceRecordType::MG => 8,
            ResourceRecordType::MR => 9,
            ResourceRecordType::NULL => 10,
            ResourceRecordType::WKS => 11,
            ResourceRecordType::PTR => 12,
            ResourceRecordType::HINFO => 13,
            ResourceRecordType::MINFO => 14,
            ResourceRecordType::MX => 15,
            ResourceRecordType::TXT => 16,
        }
    }

    /// The type with the numeric code `code`, if there is one.
    pub fn from_code(code: u16) -> (r: Option<ResourceRecordType>)
        ensures
            r is Some <==> 1 <= code <= 16,
            r is Some ==> r->Some_0.spec_code() == code,
    {
        match code {
            1 => Some(ResourceRecordType::A),
            2 => Some(ResourceRecordType::NS),
            3 => Some(ResourceRecordType::MD),
            4 => Some(ResourceRecordType::MF),
            5 => Some(ResourceRecordType::CNAME),
            6 => Some(ResourceRecordType::SOA),
            7 => Some(ResourceRecordType::MB),
            8 => Some(ResourceRecordType::MG),
            9 => Some(ResourceRecordType::MR),
            10 => Some(ResourceRecordType::NULL),
            11 => Some(ResourceRecordType::WKS),
            12 => Some(ResourceRecordType::PTR),
            13 => Some(ResourceRecordType::HINFO),
            14 => Some(ResourceRecordType::MINFO),
            15 => Some(ResourceRecordType::MX),
            16 => Some(ResourceRecordType::TXT),
            _ => None,
        }
    }
}

} // verus!
