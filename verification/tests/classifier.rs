use realtor_query::MarkerSlot;
use realtor_query::Status;
use realtor_query::classify;
use realtor_query::contains_bytes;
use realtor_query::default_table;
use realtor_query::get_status;
use realtor_query::get_status_tag;

fn page_with(fragments: &[&[u8]]) -> Vec<u8> {
    let mut body = b"<html><body>filler ".to_vec();
    for f in fragments {
        body.extend_from_slice(f);
        body.extend_from_slice(b" more filler ");
    }
    body.extend_from_slice(b"</body></html>");
    body
}

#[test]
fn marker_slots_carry_the_known_fragments() {
    assert_eq!(
        get_status_tag(MarkerSlot::Contingent),
        b"statusText ldpPage\">Contingent</span>".to_vec()
    );
    assert_eq!(
        get_status_tag(MarkerSlot::Pending1),
        b"statusText ldpPage\">Pending</span>".to_vec()
    );
    assert_eq!(
        get_status_tag(MarkerSlot::Pending2),
        b"Source Listing Status: Pending".to_vec()
    );
    assert_eq!(
        get_status_tag(MarkerSlot::Active1),
        b"statusText ldpPage\">For Sale</span>".to_vec()
    );
    assert_eq!(
        get_status_tag(MarkerSlot::JustSold1),
        b"statusText ldpPage\">Just Sold</span>".to_vec()
    );
    assert_eq!(
        get_status_tag(MarkerSlot::OffMarket1),
        b"property-meta-status\">Off Market</span>".to_vec()
    );
}

#[test]
fn classifies_each_single_marker() {
    let cases: Vec<(MarkerSlot, Status)> = vec![
        (MarkerSlot::Contingent, Status::Contingent),
        (MarkerSlot::Pending1, Status::Pending),
        (MarkerSlot::Active1, Status::Active),
        (MarkerSlot::JustSold1, Status::JustSold),
        (MarkerSlot::OffMarket1, Status::OffMarket),
    ];
    for (slot, expected) in cases {
        let marker = get_status_tag(slot);
        let body = page_with(&[marker.as_slice()]);
        assert_eq!(get_status(body.as_slice()), expected);
    }
}

#[test]
fn contingent_beats_pending_when_both_markers_present() {
    let pending = get_status_tag(MarkerSlot::Pending1);
    let contingent = get_status_tag(MarkerSlot::Contingent);
    // Lower-precedence marker first in the page: order in the body must
    // not matter, only the table's precedence.
    let body = page_with(&[pending.as_slice(), contingent.as_slice()]);
    assert_eq!(get_status(body.as_slice()), Status::Contingent);
}

#[test]
fn higher_precedence_wins_with_all_markers_present() {
    let all = [
        get_status_tag(MarkerSlot::OffMarket1),
        get_status_tag(MarkerSlot::JustSold1),
        get_status_tag(MarkerSlot::Active1),
        get_status_tag(MarkerSlot::Pending1),
        get_status_tag(MarkerSlot::Contingent),
    ];
    let frags: Vec<&[u8]> = all.iter().map(|v| v.as_slice()).collect();
    let body = page_with(&frags);
    assert_eq!(get_status(body.as_slice()), Status::Contingent);
}

#[test]
fn pending_beats_active_when_both_markers_present() {
    let active = get_status_tag(MarkerSlot::Active1);
    let pending = get_status_tag(MarkerSlot::Pending1);
    let body = page_with(&[active.as_slice(), pending.as_slice()]);
    assert_eq!(get_status(body.as_slice()), Status::Pending);
}

#[test]
fn unknown_for_body_without_markers() {
    let body = page_with(&[b"nothing to see here".as_slice()]);
    assert_eq!(get_status(body.as_slice()), Status::Unknown);
}

#[test]
fn unknown_for_empty_body() {
    assert_eq!(get_status(b""), Status::Unknown);
}

#[test]
fn classify_works_against_an_explicit_table() {
    let table = default_table();
    let marker = get_status_tag(MarkerSlot::JustSold1);
    let body = page_with(&[marker.as_slice()]);
    assert_eq!(classify(&table, body.as_slice()), Status::JustSold);
    assert_eq!(classify(&table, b"unrelated"), Status::Unknown);
}

#[test]
fn contains_bytes_finds_substrings() {
    assert!(contains_bytes(b"abcdef", b"cde"));
    assert!(contains_bytes(b"abcdef", b""));
    assert!(!contains_bytes(b"abcdef", b"cdf"));
    assert!(!contains_bytes(b"ab", b"abc"));
}
