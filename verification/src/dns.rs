use vstd::prelude::*;

use crate::text::text_eq;
use curl::Error as TransferError;
use serde_json::Error as JsonError;

verus! {

/// The type of a DNS record, named on the wire by its usual mnemonic
/// (`"TXT"`, `"AAAA"`, ...).
#[derive(Clone, Copy, Debug, PartialEq, Eq, Structural)]
pub enum DNSType {
    A,
    AAAA,
    CAA,
    CNAME,
    MX,
    NS,
    PTR,
    SOA,
    SRV,
    TXT,
}

impl DNSType {
    /// The mnemonic of the type.
    pub open spec fn spec_name(self) -> Seq<char> {
        match self {
            DNSType::A => "A"@,
            DNSType::AAAA => "AAAA"@,
            DNSType::CAA => "CAA"@,
            DNSType::CNAME => "CNAME"@,
            DNSType::MX => "MX"@,
            DNSType::NS => "NS"@,
            DNSType::PTR => "PTR"@,
            DNSType::SOA => "SOA"@,
            DNSType::SRV => "SRV"@,
            DNSType::TXT => "TXT"@,
        }
    }

    /// The type whose mnemonic is `s`, if any.
    pub open spec fn spec_from_name(s: Seq<char>) -> Option<DNSType> {
        if s == "A"@ {
            Some(DNSType::A)
        } else if s == "AAAA"@ {
            Some(DNSType::AAAA)
        } else if s == "CAA"@ {
            Some(DNSType::CAA)
        } else if s == "CNAME"@ {
            Some(DNSType::CNAME)
        } else if s == "MX"@ {
            Some(DNSType::MX)
        } else if s == "NS"@ {
            Some(DNSType::NS)
        } else if s == "PTR"@ {
            Some(DNSType::PTR)
        } else if s == "SOA"@ {
            Some(DNSType::SOA)
        } else if s == "SRV"@ {
            Some(DNSType::SRV)
        } else if s == "TXT"@ {
            Some(DNSType::TXT)
        } else {
            None
        }
    }

    /// The mnemonic of the type, as the API writes it.
    pub fn name(&self) -> (s: String)
        ensures
            s@ == self.spec_name(),
    {
        match self {
            DNSType::A => "A".to_owned(),
            DNSType::AAAA => "AAAA".to_owned(),
            DNSType::CAA => "CAA".to_owned(),
            DNSType::CNAME => "CNAME".to_owned(),
            DNSType::MX => "MX".to_owned(),
            DNSType::NS => "NS".to_owned(),
            DNSType::PTR => "PTR".to_owned(),
            DNSType::SOA => "SOA".to_owned(),
            DNSType::SRV => "SRV".to_owned(),
            DNSType::TXT => "TXT".to_owned(),
        }
    }

    /// Reads a type from its mnemonic; `None` for any other text.
    pub fn from_name(s: &str) -> (r: Option<DNSType>)
        ensures
            r == DNSType::spec_from_name(s@),
    {
        if text_eq(s, "A") {
            Some(DNSType::A)
        } else if text_eq(s, "AAAA") {
            Some(DNSType::AAAA)
        } else if text_eq(s, "CAA") {
            Some(DNSType::CAA)
        } else if text_eq(s, "CNAME") {
            Some(DNSType::CNAME)
        } else if text_eq(s, "MX") {
            Some(DNSType::MX)
        } else if text_eq(s, "NS") {
            Some(DNSType::NS)
        } else if text_eq(s, "PTR") {
            Some(DNSType::PTR)
        } else if text_eq(s, "SOA") {
            Some(DNSType::SOA)
        } else if text_eq(s, "SRV") {
            Some(DNSType::SRV)
        } else if text_eq(s, "TXT") {
            Some(DNSType::TXT)
        } else {
            None
        }
    }
}

/// A type reads back from its own mnemonic, and a mnemonic that reads as a
/// type is that type's mnemonic: `from_name(t.name()) == Some(t)`, and
/// `from_name(s) == Some(t)` only when `s == t.name()`.
pub proof fn lemma_dns_type_name_roundtrip(t: DNSType, s: Seq<char>)
    ensures
        DNSType::spec_from_name(t.spec_name()) == Some(t),
        DNSType::spec_from_name(s) == Some(t) ==> s == t.spec_name(),
{
    reveal_strlit("A");
    reveal_strlit("AAAA");
    reveal_strlit("CAA");
    reveal_strlit("CNAME");
    reveal_strlit("MX");
    reveal_strlit("NS");
    reveal_strlit("PTR");
    reveal_strlit("SOA");
    reveal_strlit("SRV");
    reveal_strlit("TXT");
    match t {
        DNSType::A => {

        },
        DNSType::AAAA => {
            assert("AAAA"@.len() != "A"@.len());
        },
        DNSType::CAA => {
            assert("CAA"@.len() != "A"@.len());
            assert("CAA"@.len() != "AAAA"@.len());
        },
        DNSType::CNAME => {
            assert("CNAME"@.len() != "A"@.len());
            assert("CNAME"@.len() != "AAAA"@.len());
            assert("CNAME"@.len() != "CAA"@.len());
        },
        DNSType::MX => {
            assert("MX"@.len() != "A"@.len());
            assert("MX"@.len() != "AAAA"@.len());
            assert("MX"@.len() != "CAA"@.len());
            assert("MX"@.len() != "CNAME"@.len());
        },
        DNSType::NS => {
            assert("NS"@.len() != "A"@.len());
            assert("NS"@.len() != "AAAA"@.len());
            assert("NS"@.len() != "CAA"@.len());
            assert("NS"@.len() != "CNAME"@.len());
            assert("NS"@[0] != "MX"@[0]);
        },
        DNSType::PTR => {
            assert("PTR"@.len() != "A"@.len());
            assert("PTR"@.len() != "AAAA"@.len());
            assert("PTR"@[0] != "CAA"@[0]);
            assert("PTR"@.len() != "CNAME"@.len());
            assert("PTR"@.len() != "MX"@.len());
            assert("PTR"@.len() != "NS"@.len());
        },
        DNSType::SOA => {
            assert("SOA"@.len() != "A"@.len());
            assert("SOA"@.len() != "AAAA"@.len());
            assert("SOA"@[0] != "CAA"@[0]);
            assert("SOA"@.len() != "CNAME"@.len());
            assert("SOA"@.len() != "MX"@.len());
            assert("SOA"@.len() != "NS"@.len());
            assert("SOA"@[0] != "PTR"@[0]);
        },
        DNSType::SRV => {
            assert("SRV"@.len() != "A"@.len());
            assert("SRV"@.len() != "AAAA"@.len());
            assert("SRV"@[0] != "CAA"@[0]);
            assert("SRV"@.len() != "CNAME"@.len());
            assert("SRV"@.len() != "MX"@.len());
            assert("SRV"@.len() != "NS"@.len());
            assert("SRV"@[0] != "PTR"@[0]);
            assert("SRV"@[1] != "SOA"@[1]);
        },
        DNSType::TXT => {
            assert("TXT"@.len() != "A"@.len());
            assert("TXT"@.len() != "AAAA"@.len());
            assert("TXT"@[0] != "CAA"@[0]);
            assert("TXT"@.len() != "CNAME"@.len());
            assert("TXT"@.len() != "MX"@.len());
            assert("TXT"@.len() != "NS"@.len());
            assert("TXT"@[0] != "PTR"@[0]);
            assert("TXT"@[0] != "SOA"@[0]);
            assert("TXT"@[0] != "SRV"@[0]);
        },
    }
}

/// A DNS domain of the account.
/// The API key travels with the domain, so that operations on it need nothing else.
#[derive(Debug)]
pub struct Domain<'a> {
    pub api_key: &'a str,
    pub id: usize,
    pub name: String,
    pub dnssec: bool,
    pub external: bool,
}

impl<'a> Clone for Domain<'a> {
    fn clone(&self) -> (r: Self)
        ensures
            r == *self,
    {
        Domain {
            api_key: self.api_key,
            id: self.id,
            name: self.name.clone(),
            dnssec: self.dnssec,
            external: self.external,
        }
    }
}

/// A DNS entry of a zone.
#[derive(Debug, PartialEq, Eq)]
pub struct Record {
    pub id: usize,
    pub name: String,
    pub record_type: DNSType,
    pub ttl: usize,
    pub data: String,
}

impl Clone for Record {
    fn clone(&self) -> (r: Self)
        ensures
            r == *self,
    {
        Record {
            id: self.id,
            name: self.name.clone(),
            record_type: self.record_type,
            ttl: self.ttl,
            data: self.data.clone(),
        }
    }
}

impl Record {
    /// A record to be sent to the API. Its id is 0: the API gives records
    /// their ids and ignores the one sent.
    pub fn new(entry_name: &str, entry_type: DNSType, entry_value: &str, entry_ttl: usize) -> (r:
        Record)
        ensures
            r.id == 0,
            r.name@ == entry_name@,
            r.record_type == entry_type,
            r.data@ == entry_value@,
            r.ttl == entry_ttl,
    {
        Record {
            id: 0,
            name: entry_name.to_owned(),
            record_type: entry_type,
            ttl: entry_ttl,
            data: entry_value.to_owned(),
        }
    }
}

/// A DNS zone of a domain. A domain has several; at most one of them is
/// active, and the others may be edited.
#[derive(Debug)]
pub struct Version {
    pub uuid: String,
    pub name: String,
    pub active: bool,
}

impl Clone for Version {
    fn clone(&self) -> (r: Self)
        ensures
            r == *self,
    {
        Version { uuid: self.uuid.clone(), name: self.name.clone(), active: self.active }
    }
}

/// Failure of the HTTP transfer, from `curl`.
#[verifier::external_type_specification]
#[verifier::external_body]
pub struct ExCurlError(TransferError);

/// Failure to read an answer as JSON, from `serde_json`.
#[verifier::external_type_specification]
#[verifier::external_body]
pub struct ExJsonError(JsonError);

/// What an operation of the API can fail with.
#[derive(Debug)]
pub enum Error {
    /// The HTTP transfer failed.
    CurlError(TransferError),
    /// The answer was not the JSON expected.
    SerdeError(JsonError),
    /// The zone to be written is the active one, which the API does not let be changed.
    ActiveZoneForbidden,
    /// The domain has no active zone.
    InvalidVersion,
    /// The server answered with a failure status: the URL asked, the status, the body.
    ApiError((String, u32, String)),
}

impl From<TransferError> for Error {
    fn from(e: TransferError) -> (r: Error) {
        Error::CurlError(e)
    }
}

impl vstd::std_specs::convert::FromSpecImpl<TransferError> for Error {
    open spec fn obeys_from_spec() -> bool {
        true
    }

    open spec fn from_spec(e: TransferError) -> Error {
        Error::CurlError(e)
    }
}

impl From<JsonError> for Error {
    fn from(e: JsonError) -> (r: Error) {
        Error::SerdeError(e)
    }
}

impl vstd::std_specs::convert::FromSpecImpl<JsonError> for Error {
    open spec fn obeys_from_spec() -> bool {
        true
    }

    open spec fn from_spec(e: JsonError) -> Error {
        Error::SerdeError(e)
    }
}

} // verus!
