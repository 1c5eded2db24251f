//! Status classification against a versioned table of page-schema markers.
//!
//! A marker is a literal markup fragment whose presence in a page body is
//! taken as evidence of a listing status. The table is ordered by
//! precedence: some statuses' markup is a near-superset of another's (a
//! contingent page also satisfies looser pending heuristics), so the first
//! matching entry wins and no best-match scoring is attempted.

use vstd::prelude::*;
use vstd::string::StrSliceExecFns;
use vstd::string::StringSliceAdditionalSpecFns;

use crate::search::contains_bytes;
use crate::search::contains_seq;

verus! {

/// Semantic sale status of a listing.
#[derive(Clone, Copy, Debug, PartialEq, Eq, Structural)]
pub enum Status {
    Active,
    Pending,
    Contingent,
    JustSold,
    OffMarket,
    Unknown,
}

/// Named slots of the known page schema. Several slots may carry the same
/// status: schema drift yields alternate markup for one semantic outcome,
/// and operators add a new variant under the same status rather than
/// deleting old ones.
#[derive(Clone, Copy, Debug, PartialEq, Eq, Structural)]
pub enum MarkerSlot {
    Contingent,
    Pending1,
    Pending2,
    Active1,
    JustSold1,
    OffMarket1,
}

/// The marker fragment of each schema slot.
pub open spec fn marker_slot_pattern(slot: MarkerSlot) -> Seq<u8> {
    match slot {
        MarkerSlot::Contingent => ("statusText ldpPage\">Contingent</span>").spec_bytes(),
        MarkerSlot::Pending1 => ("statusText ldpPage\">Pending</span>").spec_bytes(),
        MarkerSlot::Pending2 => ("Source Listing Status: Pending").spec_bytes(),
        MarkerSlot::Active1 => ("statusText ldpPage\">For Sale</span>").spec_bytes(),
        MarkerSlot::JustSold1 => ("statusText ldpPage\">Just Sold</span>").spec_bytes(),
        MarkerSlot::OffMarket1 => ("property-meta-status\">Off Market</span>").spec_bytes(),
    }
}

/// The status that each schema slot stands for.
pub open spec fn marker_slot_label(slot: MarkerSlot) -> Status {
    match slot {
        MarkerSlot::Contingent => Status::Contingent,
        MarkerSlot::Pending1 => Status::Pending,
        MarkerSlot::Pending2 => Status::Pending,
        MarkerSlot::Active1 => Status::Active,
        MarkerSlot::JustSold1 => Status::JustSold,
        MarkerSlot::OffMarket1 => Status::OffMarket,
    }
}

/// The marker fragment of a schema slot, as bytes.
pub fn get_status_tag(slot: MarkerSlot) -> (p: Vec<u8>)
    ensures
        p@ == marker_slot_pattern(slot),
{
    match slot {
        MarkerSlot::Contingent => ("statusText ldpPage\">Contingent</span>").as_bytes_vec(),
        MarkerSlot::Pending1 => ("statusText ldpPage\">Pending</span>").as_bytes_vec(),
        MarkerSlot::Pending2 => ("Source Listing Status: Pending").as_bytes_vec(),
        MarkerSlot::Active1 => ("statusText ldpPage\">For Sale</span>").as_bytes_vec(),
        MarkerSlot::JustSold1 => ("statusText ldpPage\">Just Sold</span>").as_bytes_vec(),
        MarkerSlot::OffMarket1 => ("property-meta-status\">Off Market</span>").as_bytes_vec(),
    }
}

/// One entry of the marker table.
pub struct Marker {
    pub label: Status,
    pub pattern: Vec<u8>,
}

/// The ordered, precedence-tagged marker table: process-wide configuration,
/// loaded once and treated as replaceable data.
pub struct MarkerTable {
    pub entries: Vec<Marker>,
}

impl MarkerTable {
    /// Mathematical content of the table: the label/pattern pairs in order.
    pub open spec fn rep(&self) -> Seq<(Status, Seq<u8>)> {
        self.entries@.map_values(|m: Marker| (m.label, m.pattern@))
    }
}

/// Classification outcome when the entries from position `i` on are
/// consulted in order: the label of the first entry whose pattern the body
/// contains, or `Unknown` when none matches.
pub open spec fn classify_from(table: Seq<(Status, Seq<u8>)>, body: Seq<u8>, i: int) -> Status
    decreases table.len() - i,
{
    if i < 0 || i >= table.len() {
        Status::Unknown
    } else if contains_seq(body, table[i].1) {
        table[i].0
    } else {
        classify_from(table, body, i + 1)
    }
}

/// The label of the first entry of the table whose pattern the body
/// contains, or `Unknown` when no entry matches.
pub open spec fn classify_spec(table: Seq<(Status, Seq<u8>)>, body: Seq<u8>) -> Status {
    classify_from(table, body, 0)
}

/// Classify a page body against a marker table, in precedence order.
pub fn classify(table: &MarkerTable, body: &[u8]) -> (st: Status)
    ensures
        st == classify_spec(table.rep(), body@),
{
    let n = table.entries.len();
    let mut i: usize = 0;
    while i < n
        invariant
            0 <= i <= n,
            n == table.entries@.len(),
            classify_spec(table.rep(), body@) == classify_from(table.rep(), body@, i as int),
        decreases n - i,
    {
        let m = &table.entries[i];
        assert(table.rep()[i as int] == (m.label, m.pattern@));
        if contains_bytes(body, m.pattern.as_slice()) {
            return m.label;
        }
        i += 1;
    }
    Status::Unknown
}

/// The current known page schema, highest precedence first:
/// contingent, pending, active, just sold, off market.
pub open spec fn default_table_rep() -> Seq<(Status, Seq<u8>)> {
    seq![
        (Status::Contingent, marker_slot_pattern(MarkerSlot::Contingent)),
        (Status::Pending, marker_slot_pattern(MarkerSlot::Pending1)),
        (Status::Active, marker_slot_pattern(MarkerSlot::Active1)),
        (Status::JustSold, marker_slot_pattern(MarkerSlot::JustSold1)),
        (Status::OffMarket, marker_slot_pattern(MarkerSlot::OffMarket1)),
    ]
}

/// Build the marker table for the current known page schema.
///
/// Contingent and pending come before active because such pages are still
/// "active" in looser heuristics; contingent comes before pending on the
/// assumption that contingent pages also satisfy the pending marker.
pub fn default_table() -> (t: MarkerTable)
    ensures
        t.rep() == default_table_rep(),
{
    let mut entries: Vec<Marker> = Vec::new();
    entries.push(Marker {
        label: Status::Contingent,
        pattern: get_status_tag(MarkerSlot::Contingent),
    });
    entries.push(Marker { label: Status::Pending, pattern: get_status_tag(MarkerSlot::Pending1) });
    entries.push(Marker { label: Status::Active, pattern: get_status_tag(MarkerSlot::Active1) });
    entries.push(Marker {
        label: Status::JustSold,
        pattern: get_status_tag(MarkerSlot::JustSold1),
    });
    entries.push(Marker {
        label: Status::OffMarket,
        pattern: get_status_tag(MarkerSlot::OffMarket1),
    });
    let t = MarkerTable { entries };
    proof {
        assert(t.rep() =~= default_table_rep());
    }
    t
}

/// Classify a page body against the current known page schema.
pub fn get_status(body: &[u8]) -> (st: Status)
    ensures
        st == classify_spec(default_table_rep(), body@),
{
    let table = default_table();
    classify(&table, body)
}

proof fn lemma_classify_from_prefers_earlier(
    table: Seq<(Status, Seq<u8>)>,
    body: Seq<u8>,
    i: int,
    hi: int,
)
    requires
        0 <= i <= hi < table.len(),
        contains_seq(body, table[hi].1),
    ensures
        exists|k: int|
            i <= k <= hi && contains_seq(body, table[k].1) && classify_from(table, body, i)
                == table[k].0,
    decreases hi - i,
{
    if contains_seq(body, table[i].1) {
        assert(i <= i <= hi && contains_seq(body, table[i].1) && classify_from(table, body, i)
            == table[i].0);
    } else {
        lemma_classify_from_prefers_earlier(table, body, i + 1, hi);
    }
}

/// Precedence law: when the body carries the marker of the entry at
/// position `hi`, classification returns the label of some entry at or
/// above `hi` whose marker the body carries; it never falls through to a
/// lower-precedence entry, and never to `Unknown`.
pub proof fn lemma_classify_prefers_higher_precedence(
    table: Seq<(Status, Seq<u8>)>,
    body: Seq<u8>,
    hi: int,
)
    requires
        0 <= hi < table.len(),
        contains_seq(body, table[hi].1),
    ensures
        exists|k: int|
            0 <= k <= hi && contains_seq(body, table[k].1) && classify_spec(table, body)
                == table[k].0,
{
    lemma_classify_from_prefers_earlier(table, body, 0, hi);
}

proof fn lemma_classify_from_no_match(table: Seq<(Status, Seq<u8>)>, body: Seq<u8>, i: int)
    requires
        forall|k: int| i <= k < table.len() ==> !contains_seq(body, #[trigger] table[k].1),
    ensures
        classify_from(table, body, i) == Status::Unknown,
    decreases table.len() - i,
{
    if 0 <= i < table.len() {
        lemma_classify_from_no_match(table, body, i + 1);
    }
}

proof fn lemma_classify_from_match_somewhere(table: Seq<(Status, Seq<u8>)>, body: Seq<u8>, i: int)
    requires
        forall|k: int| 0 <= k < table.len() ==> #[trigger] table[k].0 != Status::Unknown,
        classify_from(table, body, i) == Status::Unknown,
        0 <= i,
    ensures
        forall|k: int| i <= k < table.len() ==> !contains_seq(body, #[trigger] table[k].1),
    decreases table.len() - i,
{
    if i < table.len() {
        lemma_classify_from_match_somewhere(table, body, i + 1);
    }
}

/// For a table whose entries all carry a real status, classification
/// returns `Unknown` exactly when the body contains none of the configured
/// markers.
pub proof fn lemma_classify_unknown_iff_no_match(table: Seq<(Status, Seq<u8>)>, body: Seq<u8>)
    requires
        forall|k: int| 0 <= k < table.len() ==> #[trigger] table[k].0 != Status::Unknown,
    ensures
        classify_spec(table, body) == Status::Unknown <==> (forall|k: int|
            0 <= k < table.len() ==> !contains_seq(body, #[trigger] table[k].1)),
{
    if classify_spec(table, body) == Status::Unknown {
        lemma_classify_from_match_somewhere(table, body, 0);
    }
    if forall|k: int| 0 <= k < table.len() ==> !contains_seq(body, #[trigger] table[k].1) {
        lemma_classify_from_no_match(table, body, 0);
    }
}

proof fn lemma_encode_utf8_nonempty(chars: Seq<char>)
    requires
        chars.len() > 0,
    ensures
        vstd::utf8::encode_utf8(chars).len() > 0,
{
    assert(vstd::utf8::encode_scalar(chars[0] as u32).len() >= 1);
}

/// Every marker of the current schema is a nonempty fragment.
pub proof fn lemma_default_patterns_nonempty()
    ensures
        forall|k: int|
            0 <= k < default_table_rep().len() ==> (#[trigger] default_table_rep()[k].1).len() > 0,
{
    reveal_strlit("statusText ldpPage\">Contingent</span>");
    reveal_strlit("statusText ldpPage\">Pending</span>");
    reveal_strlit("statusText ldpPage\">For Sale</span>");
    reveal_strlit("statusText ldpPage\">Just Sold</span>");
    reveal_strlit("property-meta-status\">Off Market</span>");
    lemma_encode_utf8_nonempty(("statusText ldpPage\">Contingent</span>")@);
    lemma_encode_utf8_nonempty(("statusText ldpPage\">Pending</span>")@);
    lemma_encode_utf8_nonempty(("statusText ldpPage\">For Sale</span>")@);
    lemma_encode_utf8_nonempty(("statusText ldpPage\">Just Sold</span>")@);
    lemma_encode_utf8_nonempty(("property-meta-status\">Off Market</span>")@);
}

/// On the current schema's table, classification returns `Unknown`
/// exactly when the body contains none of the configured markers.
pub proof fn lemma_default_classify_unknown_iff(body: Seq<u8>)
    ensures
        classify_spec(default_table_rep(), body) == Status::Unknown <==> (forall|k: int|
            0 <= k < default_table_rep().len() ==> !contains_seq(
                body,
                #[trigger] default_table_rep()[k].1,
            )),
{
    assert(forall|k: int|
        0 <= k < default_table_rep().len() ==> #[trigger] default_table_rep()[k].0
            != Status::Unknown);
    lemma_classify_unknown_iff_no_match(default_table_rep(), body);
}

/// The empty body classifies as `Unknown` on the current schema's table.
pub proof fn lemma_default_empty_body_unknown()
    ensures
        classify_spec(default_table_rep(), Seq::<u8>::empty()) == Status::Unknown,
{
    lemma_default_patterns_nonempty();
    lemma_empty_body_classifies_unknown(default_table_rep(), Seq::<u8>::empty());
}

/// An empty body matches no nonempty marker, so it classifies as `Unknown`
/// under any table whose patterns are all nonempty.
pub proof fn lemma_empty_body_classifies_unknown(table: Seq<(Status, Seq<u8>)>, body: Seq<u8>)
    requires
        body.len() == 0,
        forall|k: int| 0 <= k < table.len() ==> (#[trigger] table[k].1).len() > 0,
    ensures
        classify_spec(table, body) == Status::Unknown,
{
    assert forall|k: int| 0 <= k < table.len() implies !contains_seq(body, #[trigger] table[k].1) by {
        assert(forall|j: int| !crate::search::is_match_at(body, table[k].1, j));
    }
    lemma_classify_from_no_match(table, body, 0);
}

} // verus!
