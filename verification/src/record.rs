//! The input and output records of a run.
//!
//! Text is carried as UTF-8 bytes throughout: page bodies, names and
//! queries arrive as the raw bytes of the fetched or read text, and the
//! output line codec works on the same representation.

use vstd::prelude::*;

use crate::status::Status;

verus! {

/// One read-only input entry: `name` is the human-readable identifier,
/// `query` the value substituted into the listing URL template. The two
/// are distinct so display identity is decoupled from the lookup key.
#[derive(Clone, Debug, PartialEq, Eq)]
pub struct QueryRecord {
    pub name: Vec<u8>,
    pub query: Vec<u8>,
}

/// Mathematical content of a `QueryRecord`.
#[verifier::ext_equal]
pub struct QueryRep {
    pub name: Seq<u8>,
    pub query: Seq<u8>,
}

impl View for QueryRecord {
    type V = QueryRep;

    open spec fn view(&self) -> QueryRep {
        QueryRep { name: self.name@, query: self.query@ }
    }
}

/// One output entry, appended exactly once per successfully resolved
/// property and never mutated afterwards. `price` is empty when not
/// applicable or not found.
#[derive(Clone, Debug, PartialEq, Eq)]
pub struct ResultRecord {
    pub name: Vec<u8>,
    pub status: Status,
    pub price: Vec<u8>,
    pub query: Vec<u8>,
}

/// Mathematical content of a `ResultRecord`.
#[verifier::ext_equal]
pub struct RecordRep {
    pub name: Seq<u8>,
    pub status: Status,
    pub price: Seq<u8>,
    pub query: Seq<u8>,
}

impl View for ResultRecord {
    type V = RecordRep;

    open spec fn view(&self) -> RecordRep {
        RecordRep { name: self.name@, status: self.status, price: self.price@, query: self.query@ }
    }
}

} // verus!
