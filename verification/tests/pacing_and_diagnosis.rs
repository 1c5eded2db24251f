use realtor_query::UnknownReason;
use realtor_query::default_pacing;
use realtor_query::get_unknown_reason;
use realtor_query::next_delay;

#[test]
fn default_pacing_matches_the_observed_settings() {
    let cfg = default_pacing();
    assert_eq!(cfg.min_secs, 125);
    assert_eq!(cfg.max_secs, 184);
    assert_eq!(cfg.cooldown_every, 9);
    assert_eq!(cfg.cooldown_secs, 1805);
}

#[test]
fn cooldown_on_every_ninth_request() {
    let cfg = default_pacing();
    assert_eq!(next_delay(&cfg, 9), 1805);
    assert_eq!(next_delay(&cfg, 18), 1805);
    assert_eq!(next_delay(&cfg, 90), 1805);
}

#[test]
fn random_window_on_other_requests() {
    let cfg = default_pacing();
    for idx in [1u64, 2, 5, 8, 10, 17, 100] {
        for _ in 0..20 {
            let d = next_delay(&cfg, idx);
            assert!((125..=184).contains(&d), "delay {d} outside window at index {idx}");
        }
    }
}

#[test]
fn interruption_title_means_bot_blocked() {
    let body = b"<html><title>Pardon Our Interruption</title>...</html>";
    assert_eq!(get_unknown_reason(body), UnknownReason::BotBlocked);
}

#[test]
fn unavailable_title_means_service_unavailable() {
    let body = b"<head><title>Service Unavailable</title></head>";
    assert_eq!(get_unknown_reason(body), UnknownReason::ServiceUnavailable);
}

#[test]
fn no_known_title_means_possible_schema_change() {
    let body = b"<html><title>Some Listing</title></html>";
    assert_eq!(get_unknown_reason(body), UnknownReason::PossibleSchemaChange);
    assert_eq!(get_unknown_reason(b""), UnknownReason::PossibleSchemaChange);
}

#[test]
fn interruption_wins_over_unavailable_when_both_present() {
    let body =
        b"<title>Pardon Our Interruption</title><title>Service Unavailable</title>";
    assert_eq!(get_unknown_reason(body), UnknownReason::BotBlocked);
}

#[test]
fn reason_messages() {
    assert_eq!(UnknownReason::BotBlocked.message(), "Bot-Blocked");
    assert_eq!(UnknownReason::ServiceUnavailable.message(), "Service Unavailable");
    assert_eq!(UnknownReason::PossibleSchemaChange.message(), "Possible schema change");
}
