//! Diagnosis of pages that classify as unknown.
//!
//! An unknown page is ambiguous between bot-blocking, an upstream outage,
//! and schema drift. The reason is never guessed silently: it is told
//! apart by known title markers, checked in order, and the raw page is
//! persisted for offline inspection.

use vstd::prelude::*;
use vstd::string::StrSliceExecFns;
use vstd::string::StringSliceAdditionalSpecFns;

use crate::search::contains_bytes;
use crate::search::contains_seq;

verus! {

/// Why a page matched no configured marker.
#[derive(Clone, Copy, Debug, PartialEq, Eq, Structural)]
pub enum UnknownReason {
    BotBlocked,
    ServiceUnavailable,
    PossibleSchemaChange,
}

/// Title of the challenge page served instead of listing content.
pub open spec fn interruption_title() -> Seq<u8> {
    ("<title>Pardon Our Interruption</title>").spec_bytes()
}

/// Title of the upstream service-unavailable page.
pub open spec fn unavailable_title() -> Seq<u8> {
    ("<title>Service Unavailable</title>").spec_bytes()
}

/// The diagnosis for a body: the interruption title means bot-blocking,
/// else the service-unavailable title means an outage, else the page
/// schema has possibly changed.
pub open spec fn diagnose_spec(body: Seq<u8>) -> UnknownReason {
    if contains_seq(body, interruption_title()) {
        UnknownReason::BotBlocked
    } else if contains_seq(body, unavailable_title()) {
        UnknownReason::ServiceUnavailable
    } else {
        UnknownReason::PossibleSchemaChange
    }
}

/// Tell apart why a page classified as unknown, by its title markers.
pub fn get_unknown_reason(body: &[u8]) -> (r: UnknownReason)
    ensures
        r == diagnose_spec(body@),
{
    let interruption = ("<title>Pardon Our Interruption</title>").as_bytes_vec();
    if contains_bytes(body, interruption.as_slice()) {
        return UnknownReason::BotBlocked;
    }
    let unavailable = ("<title>Service Unavailable</title>").as_bytes_vec();
    if contains_bytes(body, unavailable.as_slice()) {
        return UnknownReason::ServiceUnavailable;
    }
    UnknownReason::PossibleSchemaChange
}

impl UnknownReason {
    /// Operator-facing description of the diagnosis.
    pub fn message(&self) -> (r: String)
        ensures
            *self == UnknownReason::BotBlocked ==> r@ == ("Bot-Blocked")@,
            *self == UnknownReason::ServiceUnavailable ==> r@ == ("Service Unavailable")@,
            *self == UnknownReason::PossibleSchemaChange ==> r@ == ("Possible schema change")@,
    {
        match self {
            UnknownReason::BotBlocked => ("Bot-Blocked").to_owned(),
            UnknownReason::ServiceUnavailable => ("Service Unavailable").to_owned(),
            UnknownReason::PossibleSchemaChange => ("Possible schema change").to_owned(),
        }
    }
}

} // verus!
