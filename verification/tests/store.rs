use chrono::{DateTime, TimeZone, Utc};
use datacenter_agent::runtime::memory::store::{
    InMemorySessionStore, SessionMemoryScope, SessionMemoryTurn,
};
use datacenter_agent::runtime::store::ledger::{reserve_step, settle_step};
use datacenter_agent::runtime::store::month::{next_reset_utc, taipei_month_key};
use datacenter_agent::runtime::store::{ReserveOutcome, SettleOutcome, StoreError};
use datacenter_agent::runtime::store::sanitize::{default_redact_patterns, sanitize_field, REDACTED};

fn sanitize(input: &str) -> String {
    sanitize_field(input, &default_redact_patterns(), 500)
}

#[test]
fn redacts_email() {
    let out = sanitize("contact alice@example.com for access");
    assert!(!out.contains("alice@example.com"), "got: {out}");
    assert!(out.contains(REDACTED));
}

#[test]
fn redacts_ipv4() {
    let out = sanitize("peer was 203.0.113.9 today");
    assert!(!out.contains("203.0.113.9"), "got: {out}");
    assert!(out.contains(REDACTED));
}

#[test]
fn redacts_ipv6() {
    let out = sanitize("peer was 2001:db8::9 today");
    assert!(!out.contains("2001:db8::9"), "got: {out}");
    assert!(out.contains(REDACTED));
    assert_eq!(sanitize("meeting at 12:30 today"), "meeting at 12:30 today");
}

#[test]
fn redacts_leading_compressed_ipv6() {
    for fixture in ["::1", "::abcd", "fe80::1"] {
        let out = sanitize(&format!("peer was {fixture} today"));
        assert!(!out.contains(fixture), "leaked {fixture}: {out}");
        assert!(out.contains(REDACTED), "no redaction for {fixture}: {out}");
    }
}

#[test]
fn preserves_time_of_day_content() {
    assert_eq!(sanitize("finished at 14:30:05 sharp"), "finished at 14:30:05 sharp");
    assert_eq!(
        sanitize("window 08:00:00-17:00:00 daily"),
        "window 08:00:00-17:00:00 daily"
    );
}

#[test]
fn redacts_bearer_token() {
    let out = sanitize("sent Authorization: Bearer sk-live-abc123 upstream");
    assert!(!out.contains("sk-live-abc123"), "got: {out}");
    assert!(out.contains(REDACTED));
}

#[test]
fn redacts_cookie_pair() {
    let out = sanitize("with Cookie: session=deadbeefcafe; theme=dark");
    assert!(!out.contains("deadbeefcafe"), "got: {out}");
    assert!(out.contains(REDACTED));
}

#[test]
fn normalizes_whitespace() {
    assert_eq!(sanitize("  a\t\tb\n\nc  "), "a b c");
}

#[test]
fn truncates_to_char_limit() {
    let long = "月".repeat(600);
    let out = sanitize_field(&long, &default_redact_patterns(), 500);
    assert_eq!(out.chars().count(), 500);
}

#[test]
fn char_limit_boundary_is_exact() {
    let exact = "字".repeat(500);
    assert_eq!(sanitize_field(&exact, &[], 500), exact);
    let over = "字".repeat(501);
    assert_eq!(sanitize_field(&over, &[], 500).chars().count(), 500);
}

#[test]
fn redacts_before_truncating() {
    let input = format!("{} Bearer sk-secret-value", "x".repeat(495));
    let out = sanitize_field(&input, &default_redact_patterns(), 500);
    assert!(!out.contains("sk-secret-value"), "got: {out}");
}

#[test]
fn sanitize_truncation_keeps_the_first_chars() {
    assert_eq!(sanitize_field("abcdef", &[], 3), "abc");
    assert_eq!(sanitize_field("abc", &[], 0), "");
}

fn utc_ms(s: &str) -> i64 {
    let at: DateTime<Utc> = s.parse().expect("test timestamp must parse");
    at.timestamp_millis()
}

fn utc_ymd_hms_ms(y: i32, mo: u32, d: u32, h: u32, mi: u32, s: u32) -> i64 {
    Utc.with_ymd_and_hms(y, mo, d, h, mi, s).unwrap().timestamp_millis()
}

#[test]
fn instant_before_taipei_midnight_uses_prior_month() {
    assert_eq!(
        taipei_month_key(utc_ms("2026-08-31T15:59:59Z")).as_deref(),
        Some("2026-08")
    );
}

#[test]
fn instant_at_taipei_midnight_starts_new_month() {
    assert_eq!(
        taipei_month_key(utc_ms("2026-08-31T16:00:00Z")).as_deref(),
        Some("2026-09")
    );
}

#[test]
fn next_reset_is_first_of_next_taipei_month_in_utc() {
    assert_eq!(
        next_reset_utc(utc_ms("2026-08-31T16:00:00Z")),
        Some(utc_ymd_hms_ms(2026, 9, 30, 16, 0, 0))
    );
}

#[test]
fn december_rolls_into_next_year() {
    assert_eq!(
        taipei_month_key(utc_ms("2026-12-31T15:59:59Z")).as_deref(),
        Some("2026-12")
    );
    assert_eq!(
        next_reset_utc(utc_ms("2026-12-31T15:59:59Z")),
        Some(utc_ymd_hms_ms(2026, 12, 31, 16, 0, 0))
    );
}

#[test]
fn mid_month_resets_at_month_end() {
    assert_eq!(
        taipei_month_key(utc_ms("2026-08-13T04:00:00Z")).as_deref(),
        Some("2026-08")
    );
    assert_eq!(
        next_reset_utc(utc_ms("2026-08-13T04:00:00Z")),
        Some(utc_ymd_hms_ms(2026, 8, 31, 16, 0, 0))
    );
}

#[test]
fn month_key_pads_early_years_and_months() {
    assert_eq!(
        taipei_month_key(utc_ms("0999-03-10T00:00:00Z")).as_deref(),
        Some("0999-03")
    );
}

fn turn(user_prompt: &str) -> SessionMemoryTurn {
    SessionMemoryTurn {
        turn_id: user_prompt.to_string(),
        user_summary: user_prompt.to_string(),
        answer_summary: "answer".to_string(),
        intent: Some("revenue".to_string()),
        metric: Some("revenue".to_string()),
        asset: None,
        time_range_label: None,
        option_id: None,
        created_at_ms: 1,
    }
}

#[test]
fn append_caps_at_max_turns() {
    let mut store = InMemorySessionStore::new(2);
    let scope = SessionMemoryScope {
        session_id: "s1".into(),
        actor_id: Some("alice".into()),
    };

    store.append_turn(&scope, turn("one"));
    store.append_turn(&scope, turn("two"));
    store.append_turn(&scope, turn("three"));

    let memory = store.get(&scope).expect("memory should exist");
    assert_eq!(memory.recent_turns.len(), 2);
    assert_eq!(memory.recent_turns[0].user_summary, "two");
    assert_eq!(memory.recent_turns[1].user_summary, "three");
}

#[test]
fn clear_then_get_is_none() {
    let mut store = InMemorySessionStore::new(5);
    let scope = SessionMemoryScope {
        session_id: "s1".into(),
        actor_id: None,
    };

    store.append_turn(&scope, turn("one"));
    store.clear(&scope);

    assert!(store.get(&scope).is_none());
}

#[test]
fn key_isolates_by_actor() {
    let mut store = InMemorySessionStore::new(5);
    let alice = SessionMemoryScope {
        session_id: "same-session".into(),
        actor_id: Some("alice".into()),
    };
    let bob = SessionMemoryScope {
        session_id: "same-session".into(),
        actor_id: Some("bob".into()),
    };

    store.append_turn(&alice, turn("alice-only"));

    assert!(store.get(&bob).is_none());
}

#[test]
fn store_key_defaults_the_actor_to_anonymous() {
    let scope = SessionMemoryScope {
        session_id: "s9".into(),
        actor_id: None,
    };
    assert_eq!(InMemorySessionStore::key(&scope), "anonymous:s9");
}

#[test]
fn zero_cap_store_keeps_no_turns() {
    let mut store = InMemorySessionStore::new(0);
    let scope = SessionMemoryScope {
        session_id: "s1".into(),
        actor_id: None,
    };
    let memory = store.append_turn(&scope, turn("one"));
    assert!(memory.recent_turns.is_empty());
}

#[test]
fn reserve_step_replays_a_recorded_reservation_without_counting_it_twice() {
    let existing = Some(("actor".to_string(), "2026-07".to_string(), 500));
    let (r, row, recorded) = reserve_step("actor", "rid", 500, "2026-07", 7, existing.clone(), (100, 500));
    match r {
        Ok(ReserveOutcome::Reserved { snapshot }) => {
            assert_eq!(snapshot.reserved_micro, 500);
            assert_eq!(snapshot.spent_micro, 100);
            assert_eq!(snapshot.month_key, "2026-07");
        }
        other => panic!("unexpected {other:?}"),
    }
    assert_eq!(row, (100, 500));
    assert!(!recorded);
    let (r, row, recorded) = reserve_step("other", "rid", 500, "2026-07", 7, existing, (100, 500));
    assert_eq!(r, Err(StoreError::ReservationMismatch));
    assert_eq!(row, (100, 500));
    assert!(!recorded);
}

#[test]
fn reserve_step_checks_in_order_then_reserves() {
    let (r, _, _) = reserve_step("", "", 0, "2026-07", 7, None, (0, 0));
    assert!(matches!(r, Err(StoreError::InvalidIdentifier(w)) if w == "actor key"));
    let (r, _, _) = reserve_step("a", "", 0, "2026-07", 7, None, (0, 0));
    assert!(matches!(r, Err(StoreError::InvalidIdentifier(w)) if w == "reservation id"));
    let (r, _, _) = reserve_step("a", "r", 0, "2026-07", 7, None, (0, 0));
    assert!(matches!(
        r,
        Err(StoreError::InvalidIdentifier(w)) if w == "reservation amount must be positive micro-USD"
    ));
    let (r, row, recorded) = reserve_step("a", "r", 300, "2026-07", 7, None, (100, 200));
    match r {
        Ok(ReserveOutcome::Reserved { snapshot }) => assert_eq!(snapshot.reserved_micro, 500),
        other => panic!("unexpected {other:?}"),
    }
    assert_eq!(row, (100, 500));
    assert!(recorded);
}

#[test]
fn settle_step_never_charges_twice() {
    let (r, row, state) = settle_step("rid", Some(40), Some((50, "settled".to_string())), (10, 50));
    assert_eq!(r, Ok(SettleOutcome::AlreadySettled));
    assert_eq!(row, (10, 50));
    assert_eq!(state, None);
    let (r, row, state) = settle_step("rid", Some(40), None, (10, 50));
    assert_eq!(r, Err(StoreError::ReservationMismatch));
    assert_eq!((row, state), ((10, 50), None));
    let (r, _, _) = settle_step("rid", Some(-1), Some((50, "pending".to_string())), (10, 50));
    assert!(matches!(r, Err(StoreError::InvalidIdentifier(_))));
    let (r, row, state) = settle_step("rid", None, Some((50, "pending".to_string())), (10, 50));
    assert_eq!(r, Ok(SettleOutcome::ReconciliationRequired));
    assert_eq!(row, (10, 50));
    assert_eq!(state.as_deref(), Some("reconcile"));
    let (r, row, state) = settle_step("rid", Some(40), Some((50, "pending".to_string())), (10, 50));
    assert_eq!(r, Ok(SettleOutcome::Settled));
    assert_eq!(row, (50, 0));
    assert_eq!(state.as_deref(), Some("settled"));
}
