//! The store's per-request decisions: identifier and amount validation, session ownership and
//! expiry, and the monthly micro-USD ledger's reserve and settle rules.

use vstd::prelude::*;

use crate::runtime::store::sanitize::{sanitize_field, sanitized_field, sources, RedactPattern};
use crate::runtime::store::{LedgerSnapshot, ReserveOutcome, SessionRecord, SettleOutcome, StoreConfig, StoreError,
    TurnSummaryInput,
    MAX_IDENTIFIER_CHARS, MONTHLY_BUDGET_MICRO};
use crate::text::{chars_vec, concat2, str_eq, to_owned_string, u64_to_decimal, decimal};

verus! {

/// An identifier is non-empty and at most 128 characters.
pub open spec fn identifier_ok(value: Seq<char>) -> bool {
    0 < value.len() <= 128
}

/// Rejects an empty or over-long identifier, naming what it is.
pub fn validate_identifier(value: &str, what: &str) -> (r: Result<(), StoreError>)
    ensures
        identifier_ok(value@) ==> r is Ok,
        !identifier_ok(value@) ==> (r matches Err(StoreError::InvalidIdentifier(w)) && w@ == what@),
{
    let n = chars_vec(value).len();
    if n == 0 || n > MAX_IDENTIFIER_CHARS {
        return Err(StoreError::InvalidIdentifier(to_owned_string(what)));
    }
    Ok(())
}

/// Refuses a retention outside 1 to 5 turns instead of clamping it.
pub fn validate_max_turns(max_turns: usize) -> (r: Result<(), StoreError>)
    ensures
        1 <= max_turns <= 5 ==> r is Ok,
        !(1 <= max_turns <= 5) ==> (r matches Err(StoreError::Unavailable(m)) && m@
            == "max_turns must be within 1..=5 for this POC, got "@ + decimal(max_turns as nat)),
{
    if max_turns == 0 || max_turns > 5 {
        let d = u64_to_decimal(max_turns as u64);
        return Err(
            StoreError::Unavailable(concat2(
                "max_turns must be within 1..=5 for this POC, got ",
                d.as_str(),
            )),
        );
    }
    Ok(())
}

/// The session TTL in milliseconds.
pub fn ttl_ms(ttl_days: u32) -> (r: i64)
    ensures
        r == ttl_days * 86_400_000,
{
    (ttl_days as i64) * 86_400_000
}

/// `a + b` clamped to the `i64` range (`i64::saturating_add`).
pub open spec fn sat_add(a: i64, b: i64) -> int {
    if a + b > i64::MAX {
        i64::MAX as int
    } else if a + b < i64::MIN {
        i64::MIN as int
    } else {
        a + b
    }
}

/// `a - b` clamped to the `i64` range (`i64::saturating_sub`).
pub open spec fn sat_sub(a: i64, b: i64) -> int {
    if a - b > i64::MAX {
        i64::MAX as int
    } else if a - b < i64::MIN {
        i64::MIN as int
    } else {
        a - b
    }
}

/// A session expires once its TTL has run out since its last append.
pub open spec fn expired(last_append_ms: i64, ttl_ms: i64, now_ms: i64) -> bool {
    sat_add(last_append_ms, ttl_ms) <= now_ms
}

/// Whether a session last appended at `last_append_ms` has expired at `now_ms`.
pub fn is_expired(last_append_ms: i64, ttl_ms: i64, now_ms: i64) -> (r: bool)
    ensures
        r == expired(last_append_ms, ttl_ms, now_ms),
{
    let sum: i128 = (last_append_ms as i128) + (ttl_ms as i128);
    let clamped: i128 = if sum > 0x7fff_ffff_ffff_ffff {
        0x7fff_ffff_ffff_ffff
    } else if sum < -0x8000_0000_0000_0000 {
        -0x8000_0000_0000_0000
    } else {
        sum
    };
    clamped <= now_ms as i128
}

/// What ensuring a session decides, given its existing row `(owner, created, last append)`.
pub enum SessionDecision {
    /// The live session belongs to this actor.
    Existing(SessionRecord),
    /// The live session belongs to another actor.
    Conflict,
    /// Create the session (replacing an expired row when `replace_expired`); creation counts as
    /// the first append.
    Create { replace_expired: bool, record: SessionRecord },
}

/// Decides how to ensure a session: a live row is kept for its owner and refused to anyone else;
/// an expired or missing row is (re)created for this actor at `now_ms`.
pub fn decide_session(
    actor_key: &str,
    session_id: &str,
    existing: Option<(String, i64, i64)>,
    now_ms: i64,
    ttl_ms: i64,
) -> (r: SessionDecision)
    ensures
        match existing {
            Some((owner, created, last)) => if !expired(last, ttl_ms, now_ms) {
                if owner@ == actor_key@ {
                    r matches SessionDecision::Existing(rec) && rec.session_id@ == session_id@
                        && rec.actor_key@ == actor_key@ && rec.created_at_ms == created as u64
                        && rec.last_append_ms == last as u64
                } else {
                    r is Conflict
                }
            } else {
                r matches SessionDecision::Create { replace_expired, record } && replace_expired
                    && record.session_id@ == session_id@ && record.actor_key@ == actor_key@
                    && record.created_at_ms == now_ms as u64 && record.last_append_ms
                    == now_ms as u64
            },
            None => r matches SessionDecision::Create { replace_expired, record }
                && !replace_expired && record.session_id@ == session_id@ && record.actor_key@
                == actor_key@ && record.created_at_ms == now_ms as u64 && record.last_append_ms
                == now_ms as u64,
        },
{
    match existing {
        Some((owner, created, last)) => {
            if !is_expired(last, ttl_ms, now_ms) {
                if str_eq(owner.as_str(), actor_key) {
                    return SessionDecision::Existing(
                        SessionRecord {
                            session_id: to_owned_string(session_id),
                            actor_key: owner,
                            created_at_ms: created as u64,
                            last_append_ms: last as u64,
                        },
                    );
                }
                return SessionDecision::Conflict;
            }
            SessionDecision::Create {
                replace_expired: true,
                record: SessionRecord {
                    session_id: to_owned_string(session_id),
                    actor_key: to_owned_string(actor_key),
                    created_at_ms: now_ms as u64,
                    last_append_ms: now_ms as u64,
                },
            }
        },
        None => SessionDecision::Create {
            replace_expired: false,
            record: SessionRecord {
                session_id: to_owned_string(session_id),
                actor_key: to_owned_string(actor_key),
                created_at_ms: now_ms as u64,
                last_append_ms: now_ms as u64,
            },
        },
    }
}

/// What reading or clearing a session decides, given its row `(owner, last append)`.
#[derive(Debug, Clone, Copy, PartialEq, Eq)]
pub enum AccessDecision {
    /// No live session: nothing to read (reads of an expired session return nothing).
    Absent,
    /// A live session owned by another actor.
    Conflict,
    /// Proceed.
    Proceed,
}

/// Decides a read: unknown or expired sessions read as empty; a live session must belong to the
/// reader. Reads never refresh expiry.
pub fn decide_load(actor_key: &str, row: Option<(String, i64)>, now_ms: i64, ttl_ms: i64) -> (r:
    AccessDecision)
    ensures
        match row {
            None => r == AccessDecision::Absent,
            Some((owner, last)) => if expired(last, ttl_ms, now_ms) {
                r == AccessDecision::Absent
            } else if owner@ != actor_key@ {
                r == AccessDecision::Conflict
            } else {
                r == AccessDecision::Proceed
            },
        },
{
    match row {
        None => AccessDecision::Absent,
        Some((owner, last)) => {
            if is_expired(last, ttl_ms, now_ms) {
                AccessDecision::Absent
            } else if !str_eq(owner.as_str(), actor_key) {
                AccessDecision::Conflict
            } else {
                AccessDecision::Proceed
            }
        },
    }
}

/// Decides a clear: an unknown session is a no-op; a live session owned by someone else is
/// refused; otherwise the session and its turns are deleted (releasing ownership).
pub fn decide_clear(actor_key: &str, row: Option<(String, i64)>, now_ms: i64, ttl_ms: i64) -> (r:
    AccessDecision)
    ensures
        match row {
            None => r == AccessDecision::Absent,
            Some((owner, last)) => if !expired(last, ttl_ms, now_ms) && owner@ != actor_key@ {
                r == AccessDecision::Conflict
            } else {
                r == AccessDecision::Proceed
            },
        },
{
    match row {
        None => AccessDecision::Absent,
        Some((owner, last)) => {
            if !is_expired(last, ttl_ms, now_ms) && !str_eq(owner.as_str(), actor_key) {
                AccessDecision::Conflict
            } else {
                AccessDecision::Proceed
            }
        },
    }
}

/// Refuses a non-positive reservation amount.
pub fn validate_reserve_amount(amount_micro: i64) -> (r: Result<(), StoreError>)
    ensures
        amount_micro > 0 ==> r is Ok,
        amount_micro <= 0 ==> (r matches Err(StoreError::InvalidIdentifier(w)) && w@
            == "reservation amount must be positive micro-USD"@),
{
    if amount_micro <= 0 {
        return Err(
            StoreError::InvalidIdentifier(
                to_owned_string("reservation amount must be positive micro-USD"),
            ),
        );
    }
    Ok(())
}

/// Refuses a negative settlement amount.
pub fn validate_settle_amount(actual_micro: Option<i64>) -> (r: Result<(), StoreError>)
    ensures
        (actual_micro matches Some(a) && a < 0) ==> (r matches Err(StoreError::InvalidIdentifier(w))
            && w@ == "settlement amount must be non-negative micro-USD"@),
        !(actual_micro matches Some(a) && a < 0) ==> r is Ok,
{
    match actual_micro {
        Some(a) => {
            if a < 0 {
                return Err(
                    StoreError::InvalidIdentifier(
                        to_owned_string("settlement amount must be non-negative micro-USD"),
                    ),
                );
            }
            Ok(())
        },
        None => Ok(()),
    }
}

/// What a reservation attempt decides.
#[derive(Debug, Clone, Copy, PartialEq, Eq)]
pub enum ReserveDecision {
    /// The same reservation was made before: answer with the current snapshot.
    Replay,
    /// The id was used before with another actor, month or amount.
    Mismatch,
    /// The ledger's sums overflow.
    Overflow,
    /// The month is overdrawn, or the amount would exceed the budget.
    Exceeded,
    /// Reserve the amount.
    Reserve,
}

/// The ledger's monthly budget.
pub open spec fn budget() -> int {
    MONTHLY_BUDGET_MICRO as int
}

/// Decides a reservation against the month's ledger `(spent, reserved)`: a reused id replays
/// only with the same actor, month and amount; an overdrawn month or an amount past the budget
/// is refused; otherwise the amount is reserved.
pub fn decide_reserve(
    actor_key: &str,
    month_key: &str,
    amount_micro: i64,
    existing: Option<(String, String, i64)>,
    spent_micro: i64,
    reserved_micro: i64,
) -> (r: ReserveDecision)
    ensures
        match existing {
            Some((owner, month, amount)) => if owner@ == actor_key@ && month@ == month_key@
                && amount == amount_micro {
                r == ReserveDecision::Replay
            } else {
                r == ReserveDecision::Mismatch
            },
            None => {
                let committed = spent_micro + reserved_micro;
                if committed < i64::MIN || committed > i64::MAX || committed + amount_micro
                    < i64::MIN || committed + amount_micro > i64::MAX {
                    r == ReserveDecision::Overflow
                } else if committed >= budget() || committed + amount_micro > budget() {
                    r == ReserveDecision::Exceeded
                } else {
                    r == ReserveDecision::Reserve
                }
            },
        },
        r == ReserveDecision::Reserve ==> spent_micro + reserved_micro + amount_micro <= budget(),
{
    match existing {
        Some((owner, month, amount)) => {
            if str_eq(owner.as_str(), actor_key) && str_eq(month.as_str(), month_key) && amount
                == amount_micro {
                ReserveDecision::Replay
            } else {
                ReserveDecision::Mismatch
            }
        },
        None => {
            let committed = match spent_micro.checked_add(reserved_micro) {
                Some(c) => c,
                None => return ReserveDecision::Overflow,
            };
            let would_be = match committed.checked_add(amount_micro) {
                Some(w) => w,
                None => return ReserveDecision::Overflow,
            };
            if committed >= MONTHLY_BUDGET_MICRO || would_be > MONTHLY_BUDGET_MICRO {
                ReserveDecision::Exceeded
            } else {
                ReserveDecision::Reserve
            }
        },
    }
}

/// What a settlement decides before touching the ledger.
#[derive(Debug, Clone, Copy, PartialEq, Eq)]
pub enum SettleStep {
    /// Unknown reservation id.
    Mismatch,
    /// Already settled; nothing changes.
    AlreadySettled,
    /// No authoritative cost: mark the reservation for reconciliation.
    Reconcile,
    /// Move the reservation to spent at this cost.
    Apply { actual_micro: i64 },
}

/// Decides a settlement from the reservation's state (if the id is known) and the cost.
pub fn decide_settle(state: Option<&str>, actual_micro: Option<i64>) -> (r: SettleStep)
    ensures
        match state {
            None => r == SettleStep::Mismatch,
            Some(s) => if s@ == "settled"@ {
                r == SettleStep::AlreadySettled
            } else {
                match actual_micro {
                    None => r == SettleStep::Reconcile,
                    Some(a) => r == SettleStep::Apply { actual_micro: a },
                }
            },
        },
{
    match state {
        None => SettleStep::Mismatch,
        Some(s) => {
            if str_eq(s, "settled") {
                SettleStep::AlreadySettled
            } else {
                match actual_micro {
                    None => SettleStep::Reconcile,
                    Some(a) => SettleStep::Apply { actual_micro: a },
                }
            }
        },
    }
}

/// The settlement's outcome from the month's ledger after applying it: overdrawn by how far
/// `spent + reserved` passes the budget, else settled.
pub fn settle_result(spent_micro: i64, reserved_micro: i64) -> (r: Result<SettleOutcome, StoreError>)
    requires
        spent_micro + reserved_micro - budget() >= i64::MIN,
    ensures
        (spent_micro + reserved_micro < i64::MIN || spent_micro + reserved_micro > i64::MAX) ==> (r
            matches Err(StoreError::Unavailable(m)) && m@ == "ledger overflow"@),
        i64::MIN <= spent_micro + reserved_micro <= i64::MAX ==> (if spent_micro + reserved_micro
            > budget() {
            r == Ok::<SettleOutcome, StoreError>(
                SettleOutcome::SettledWithOverage {
                    overdrawn_by_micro: (spent_micro + reserved_micro - budget()) as i64,
                },
            )
        } else {
            r == Ok::<SettleOutcome, StoreError>(SettleOutcome::Settled)
        }),
{
    let committed = match spent_micro.checked_add(reserved_micro) {
        Some(c) => c,
        None => return Err(StoreError::Unavailable(to_owned_string("ledger overflow"))),
    };
    let overdrawn_by_micro = committed - MONTHLY_BUDGET_MICRO;
    if overdrawn_by_micro > 0 {
        Ok(SettleOutcome::SettledWithOverage { overdrawn_by_micro })
    } else {
        Ok(SettleOutcome::Settled)
    }
}

/// The remaining budget: what spent and reserved leave of it, clamped at 0.
pub open spec fn remaining(spent_micro: i64, reserved_micro: i64) -> int {
    let a = sat_sub(MONTHLY_BUDGET_MICRO, spent_micro);
    let b = sat_sub(a as i64, reserved_micro);
    if b < 0 {
        0
    } else {
        b
    }
}

/// A reservation the ledger grants fits in what its snapshot reports as remaining, and the
/// snapshot after it reports exactly that much less.
pub proof fn law_granted_reservation_fits_the_remaining_budget(
    spent_micro: i64,
    reserved_micro: i64,
    amount_micro: i64,
)
    requires
        spent_micro >= 0,
        reserved_micro >= 0,
        amount_micro > 0,
        spent_micro + reserved_micro + amount_micro <= budget(),
    ensures
        remaining(spent_micro, reserved_micro) >= amount_micro,
        remaining(spent_micro, (reserved_micro + amount_micro) as i64) == remaining(
            spent_micro,
            reserved_micro,
        ) - amount_micro,
{
}

/// `a - b` clamped to the `i64` range.
fn saturating_sub_i64(a: i64, b: i64) -> (r: i64)
    ensures
        r == sat_sub(a, b),
{
    let d: i128 = (a as i128) - (b as i128);
    if d > 0x7fff_ffff_ffff_ffff {
        0x7fff_ffff_ffff_ffff
    } else if d < -0x8000_0000_0000_0000 {
        -0x8000_0000_0000_0000
    } else {
        d as i64
    }
}

/// The ledger snapshot of a month: the remaining budget is clamped at 0, so an overdrawn month
/// reports nothing left.
pub fn snapshot(month_key: &str, spent_micro: i64, reserved_micro: i64, next_reset_utc_ms: i64) -> (r:
    LedgerSnapshot)
    ensures
        r.month_key@ == month_key@,
        r.spent_micro == spent_micro,
        r.reserved_micro == reserved_micro,
        r.remaining_micro == remaining(spent_micro, reserved_micro),
        r.next_reset_utc_ms == next_reset_utc_ms,
        0 <= r.remaining_micro,
        spent_micro >= 0 && reserved_micro >= 0 ==> r.remaining_micro <= budget(),
{
    let a = saturating_sub_i64(MONTHLY_BUDGET_MICRO, spent_micro);
    let b = saturating_sub_i64(a, reserved_micro);
    let remaining_micro = if b < 0 {
        0
    } else {
        b
    };
    LedgerSnapshot {
        month_key: to_owned_string(month_key),
        spent_micro,
        reserved_micro,
        remaining_micro,
        next_reset_utc_ms,
    }
}

/// One optional field sanitized.
fn clean_opt(v: &Option<String>, patterns: &[RedactPattern], limit: usize) -> (r: Option<String>)
    ensures
        match *v {
            Some(s) => r matches Some(c) && c@ == sanitized_field(s@, sources(patterns@), limit as nat),
            None => r is None,
        },
{
    match v {
        Some(s) => Some(sanitize_field(s.as_str(), patterns, limit)),
        None => None,
    }
}

/// Sanitizes every field of a turn summary before it is stored.
pub fn sanitize_turn(config: &StoreConfig, turn: &TurnSummaryInput) -> (r: TurnSummaryInput)
    ensures
        ({
            let ps = sources(config.redact_patterns@);
            let n = config.summary_char_limit as nat;
            &&& r.turn_id@ == sanitized_field(turn.turn_id@, ps, n)
            &&& r.user_summary@ == sanitized_field(turn.user_summary@, ps, n)
            &&& r.answer_summary@ == sanitized_field(turn.answer_summary@, ps, n)
            &&& opt_clean(r.intent, turn.intent, ps, n)
            &&& opt_clean(r.metric, turn.metric, ps, n)
            &&& opt_clean(r.asset, turn.asset, ps, n)
            &&& opt_clean(r.time_range_label, turn.time_range_label, ps, n)
            &&& opt_clean(r.option_id, turn.option_id, ps, n)
        }),
{
    let ps = config.redact_patterns.as_slice();
    let n = config.summary_char_limit;
    TurnSummaryInput {
        turn_id: sanitize_field(turn.turn_id.as_str(), ps, n),
        user_summary: sanitize_field(turn.user_summary.as_str(), ps, n),
        answer_summary: sanitize_field(turn.answer_summary.as_str(), ps, n),
        intent: clean_opt(&turn.intent, ps, n),
        metric: clean_opt(&turn.metric, ps, n),
        asset: clean_opt(&turn.asset, ps, n),
        time_range_label: clean_opt(&turn.time_range_label, ps, n),
        option_id: clean_opt(&turn.option_id, ps, n),
    }
}

/// `after` is `before` sanitized, field present exactly when it was.
pub open spec fn opt_clean(
    after: Option<String>,
    before: Option<String>,
    ps: Seq<Seq<char>>,
    n: nat,
) -> bool {
    match before {
        Some(s) => after matches Some(c) && c@ == sanitized_field(s@, ps, n),
        None => after is None,
    }
}


/// The month's `(spent, reserved)` after a reservation decision: only a granted reservation adds
/// its amount to what is reserved; a replay, a mismatch, an overflow or a refusal writes nothing.
pub open spec fn row_after_reserve(d: ReserveDecision, spent: int, reserved: int, amount: int) -> (
    int,
    int,
) {
    match d {
        ReserveDecision::Reserve => (spent, reserved + amount),
        _ => (spent, reserved),
    }
}

/// The month's `(spent, reserved)` after a settlement step on a reservation of `held`: applying
/// moves `held` out of reserved and the actual cost into spent; an unknown id, a repeat or a
/// pending reconciliation writes nothing to the month.
pub open spec fn row_after_settle(s: SettleStep, spent: int, reserved: int, held: int) -> (
    int,
    int,
) {
    match s {
        SettleStep::Apply { actual_micro } => (spent + actual_micro, reserved - held),
        _ => (spent, reserved),
    }
}

/// The reservation's state after a settlement step: `settled` once applied, `reconcile` when the
/// cost is unknown, else as it was.
pub open spec fn state_after_settle(s: SettleStep, state: Seq<char>) -> Seq<char> {
    match s {
        SettleStep::Apply { .. } => "settled"@,
        SettleStep::Reconcile => "reconcile"@,
        _ => state,
    }
}

/// Writes a reservation decision to the month's `(spent, reserved)`.
pub fn apply_reserve(d: ReserveDecision, spent_micro: i64, reserved_micro: i64, amount_micro: i64) -> (r: (
    i64,
    i64,
))
    requires
        d == ReserveDecision::Reserve ==> i64::MIN <= reserved_micro + amount_micro <= i64::MAX,
    ensures
        (r.0 as int, r.1 as int) == row_after_reserve(d, spent_micro as int, reserved_micro as int, amount_micro as int),
{
    match d {
        ReserveDecision::Reserve => (spent_micro, reserved_micro + amount_micro),
        _ => (spent_micro, reserved_micro),
    }
}

/// Writes a settlement step to the month's `(spent, reserved)` for a reservation holding
/// `held_micro`.
pub fn apply_settle(s: SettleStep, spent_micro: i64, reserved_micro: i64, held_micro: i64) -> (r: (
    i64,
    i64,
))
    requires
        s matches SettleStep::Apply { actual_micro } ==> i64::MIN <= spent_micro + actual_micro
            <= i64::MAX && i64::MIN <= reserved_micro - held_micro <= i64::MAX,
    ensures
        (r.0 as int, r.1 as int) == row_after_settle(s, spent_micro as int, reserved_micro as int, held_micro as int),
{
    match s {
        SettleStep::Apply { actual_micro } => (spent_micro + actual_micro, reserved_micro - held_micro),
        _ => (spent_micro, reserved_micro),
    }
}

/// A refused or repeated settlement leaves the store as it was: an unknown id or an already
/// settled reservation changes neither the month nor the reservation's state.
pub proof fn law_refused_or_repeated_settle_changes_nothing(
    state: Option<Seq<char>>,
    actual: Option<i64>,
    s: SettleStep,
    spent: int,
    reserved: int,
    held: int,
)
    requires
        s == (match state {
            None => SettleStep::Mismatch,
            Some(st) => if st == "settled"@ {
                SettleStep::AlreadySettled
            } else {
                match actual {
                    None => SettleStep::Reconcile,
                    Some(a) => SettleStep::Apply { actual_micro: a },
                }
            },
        }),
        state is None || state == Some("settled"@),
    ensures
        row_after_settle(s, spent, reserved, held) == (spent, reserved),
        state matches Some(st) ==> state_after_settle(s, st) == st,
{
}

/// A replayed reservation changes nothing: the month's ledger stays as it was.
pub proof fn law_replayed_reservation_changes_nothing(spent: int, reserved: int, amount: int)
    ensures
        row_after_reserve(ReserveDecision::Replay, spent, reserved, amount) == (spent, reserved),
{
}


/// `s` is the snapshot of the month `month_key` at `(spent, reserved)`, resetting at `next`.
pub open spec fn snapshot_is(
    s: LedgerSnapshot,
    month_key: Seq<char>,
    spent: i64,
    reserved: i64,
    next: i64,
) -> bool {
    &&& s.month_key@ == month_key
    &&& s.spent_micro == spent
    &&& s.reserved_micro == reserved
    &&& s.remaining_micro == remaining(spent, reserved)
    &&& s.next_reset_utc_ms == next
}

/// One reservation, whole: the actor key, then the reservation id, then the amount are checked;
/// a recorded id replays its snapshot only for the same actor, month and amount, and is a
/// mismatch otherwise; then the month's sums must not overflow; an overdrawn month, or an amount
/// past the budget, is refused with the current snapshot; otherwise the amount is reserved.
/// `row` is the month's `(spent, reserved)`; the result carries what the month's row becomes and
/// whether the reservation is recorded. Only a granted reservation writes anything.
pub fn reserve_step(
    actor_key: &str,
    reservation_id: &str,
    amount_micro: i64,
    month_key: &str,
    next_reset_utc_ms: i64,
    existing: Option<(String, String, i64)>,
    row: (i64, i64),
) -> (r: (Result<ReserveOutcome, StoreError>, (i64, i64), bool))
    requires
        row.0 >= 0,
        row.1 >= 0,
    ensures
        !identifier_ok(actor_key@) ==> (r.0 matches Err(StoreError::InvalidIdentifier(w)) && w@
            == "actor key"@),
        identifier_ok(actor_key@) && !identifier_ok(reservation_id@) ==> (r.0 matches Err(
            StoreError::InvalidIdentifier(w),
        ) && w@ == "reservation id"@),
        identifier_ok(actor_key@) && identifier_ok(reservation_id@) && amount_micro <= 0 ==> (r.0
            matches Err(StoreError::InvalidIdentifier(w)) && w@
            == "reservation amount must be positive micro-USD"@),
        identifier_ok(actor_key@) && identifier_ok(reservation_id@) && amount_micro > 0 ==> {
            let committed = row.0 + row.1;
            match existing {
                Some((owner, month, amount)) => if owner@ == actor_key@ && month@ == month_key@
                    && amount == amount_micro {
                    r.0 matches Ok(ReserveOutcome::Reserved { snapshot }) && snapshot_is(
                        snapshot,
                        month_key@,
                        row.0,
                        row.1,
                        next_reset_utc_ms,
                    )
                } else {
                    r.0 == Err::<ReserveOutcome, StoreError>(StoreError::ReservationMismatch)
                },
                None => if committed > i64::MAX || committed + amount_micro > i64::MAX {
                    r.0 matches Err(StoreError::Unavailable(m)) && m@ == "ledger overflow"@
                } else if committed >= budget() || committed + amount_micro > budget() {
                    r.0 matches Ok(ReserveOutcome::BudgetExceeded { snapshot, next_reset_utc_ms: n })
                        && n == next_reset_utc_ms && snapshot_is(
                        snapshot,
                        month_key@,
                        row.0,
                        row.1,
                        next_reset_utc_ms,
                    )
                } else {
                    r.0 matches Ok(ReserveOutcome::Reserved { snapshot }) && snapshot_is(
                        snapshot,
                        month_key@,
                        row.0,
                        (row.1 + amount_micro) as i64,
                        next_reset_utc_ms,
                    )
                },
            }
        },
        r.2 <==> (existing is None && r.0 matches Ok(ReserveOutcome::Reserved { .. })),
        r.2 ==> r.1 == (row.0, (row.1 + amount_micro) as i64),
        !r.2 ==> r.1 == row,
{
    if let Err(e) = validate_identifier(actor_key, "actor key") {
        return (Err(e), row, false);
    }
    if let Err(e) = validate_identifier(reservation_id, "reservation id") {
        return (Err(e), row, false);
    }
    if let Err(e) = validate_reserve_amount(amount_micro) {
        return (Err(e), row, false);
    }
    let (spent, reserved) = row;
    let is_new = existing.is_none();
    match decide_reserve(actor_key, month_key, amount_micro, existing, spent, reserved) {
        ReserveDecision::Replay => (
            Ok(ReserveOutcome::Reserved { snapshot: snapshot(month_key, spent, reserved, next_reset_utc_ms) }),
            row,
            false,
        ),
        ReserveDecision::Mismatch => (Err(StoreError::ReservationMismatch), row, false),
        ReserveDecision::Overflow => (
            Err(StoreError::Unavailable(to_owned_string("ledger overflow"))),
            row,
            false,
        ),
        ReserveDecision::Exceeded => (
            Ok(
                ReserveOutcome::BudgetExceeded {
                    snapshot: snapshot(month_key, spent, reserved, next_reset_utc_ms),
                    next_reset_utc_ms,
                },
            ),
            row,
            false,
        ),
        ReserveDecision::Reserve => {
            let after = apply_reserve(ReserveDecision::Reserve, spent, reserved, amount_micro);
            (
                Ok(ReserveOutcome::Reserved { snapshot: snapshot(month_key, after.0, after.1, next_reset_utc_ms) }),
                after,
                is_new,
            )
        },
    }
}

/// One settlement, whole: the reservation id, then the amount are checked; an unknown id is a
/// mismatch and a settled reservation answers `AlreadySettled` (never charging twice), both
/// writing nothing; an unknown cost marks the reservation `reconcile` and leaves the month as it
/// was; otherwise the held amount moves out of reserved and the cost into spent, the reservation
/// becomes `settled`, and the month's new sums decide between `Settled` and
/// `SettledWithOverage` (or, when they overflow, the written settlement is reported as a ledger
/// overflow). `reservation` is the recorded `(held amount, state)`, `row` its month's
/// `(spent, reserved)`; the result carries what the row becomes and the state written, if any.
pub fn settle_step(
    reservation_id: &str,
    actual_micro: Option<i64>,
    reservation: Option<(i64, String)>,
    row: (i64, i64),
) -> (r: (Result<SettleOutcome, StoreError>, (i64, i64), Option<String>))
    requires
        row.0 >= 0,
        reservation matches Some((held, _)) ==> 0 <= held <= row.1,
        actual_micro matches Some(a) ==> row.0 + a <= i64::MAX,
    ensures
        !identifier_ok(reservation_id@) ==> (r.0 matches Err(StoreError::InvalidIdentifier(w)) && w@
            == "reservation id"@),
        identifier_ok(reservation_id@) && (actual_micro matches Some(a) && a < 0) ==> (r.0 matches Err(
            StoreError::InvalidIdentifier(w),
        ) && w@ == "settlement amount must be non-negative micro-USD"@),
        identifier_ok(reservation_id@) && !(actual_micro matches Some(a) && a < 0) ==> match reservation {
            None => r.0 == Err::<SettleOutcome, StoreError>(StoreError::ReservationMismatch),
            Some((held, state)) => if state@ == "settled"@ {
                r.0 == Ok::<SettleOutcome, StoreError>(SettleOutcome::AlreadySettled)
            } else {
                match actual_micro {
                    None => r.0 == Ok::<SettleOutcome, StoreError>(
                        SettleOutcome::ReconciliationRequired,
                    ) && (r.2 matches Some(st) && st@ == "reconcile"@),
                    Some(a) => {
                        let spent = row.0 + a;
                        let reserved = row.1 - held;
                        &&& r.1 == (spent as i64, reserved as i64)
                        &&& r.2 matches Some(st) && st@ == "settled"@
                        &&& if spent + reserved > i64::MAX {
                            r.0 matches Err(StoreError::Unavailable(m)) && m@ == "ledger overflow"@
                        } else if spent + reserved > budget() {
                            r.0 == Ok::<SettleOutcome, StoreError>(
                                SettleOutcome::SettledWithOverage {
                                    overdrawn_by_micro: (spent + reserved - budget()) as i64,
                                },
                            )
                        } else {
                            r.0 == Ok::<SettleOutcome, StoreError>(SettleOutcome::Settled)
                        }
                    },
                }
            },
        },
        r.2 is None ==> r.1 == row,
        (r.0 matches Err(StoreError::InvalidIdentifier(_)) || r.0 == Err::<SettleOutcome, StoreError>(
            StoreError::ReservationMismatch,
        ) || r.0 == Ok::<SettleOutcome, StoreError>(SettleOutcome::AlreadySettled)) ==> r.1 == row
            && r.2 is None,
        r.0 == Ok::<SettleOutcome, StoreError>(SettleOutcome::ReconciliationRequired) ==> r.1 == row,
{
    if let Err(e) = validate_identifier(reservation_id, "reservation id") {
        return (Err(e), row, None);
    }
    if let Err(e) = validate_settle_amount(actual_micro) {
        return (Err(e), row, None);
    }
    let (held, state) = match reservation {
        None => return (Err(StoreError::ReservationMismatch), row, None),
        Some(x) => x,
    };
    let (spent, reserved) = row;
    match decide_settle(Some(state.as_str()), actual_micro) {
        SettleStep::Mismatch => (Err(StoreError::ReservationMismatch), row, None),
        SettleStep::AlreadySettled => (Ok(SettleOutcome::AlreadySettled), row, None),
        SettleStep::Reconcile => (
            Ok(SettleOutcome::ReconciliationRequired),
            row,
            Some(to_owned_string("reconcile")),
        ),
        SettleStep::Apply { actual_micro: a } => {
            let after = apply_settle(SettleStep::Apply { actual_micro: a }, spent, reserved, held);
            let outcome = settle_result(after.0, after.1);
            (outcome, after, Some(to_owned_string("settled")))
        },
    }
}


/// What a snapshot reports as left: the budget less what is spent and what is reserved, and
/// nothing once those reach the budget; so, within the budget, remaining, spent and reserved add
/// up to the budget.
pub proof fn law_remaining_is_the_budget_less_spent_and_reserved(spent: i64, reserved: i64)
    requires
        spent >= 0,
        reserved >= 0,
    ensures
        remaining(spent, reserved) == if MONTHLY_BUDGET_MICRO - spent - reserved > 0 {
            MONTHLY_BUDGET_MICRO - spent - reserved
        } else {
            0
        },
        spent + reserved <= MONTHLY_BUDGET_MICRO ==> remaining(spent, reserved) + spent + reserved
            == MONTHLY_BUDGET_MICRO,
{
}

/// A session is live until its TTL has run out since its last append: with
/// `last_append + ttl <= now` it has expired, and with `now < last_append + ttl` (a sum that
/// fits in `i64`) it is still live. Reads of an expired session find nothing, a live one is read
/// by its owner only, and an expired id may be claimed by anyone (see `decide_load`,
/// `decide_session`).
pub proof fn law_a_session_lives_for_its_ttl(last_append_ms: i64, ttl_ms: i64, now_ms: i64)
    ensures
        last_append_ms + ttl_ms <= now_ms ==> expired(last_append_ms, ttl_ms, now_ms),
        now_ms < last_append_ms + ttl_ms <= i64::MAX ==> !expired(last_append_ms, ttl_ms, now_ms),
{
}

} // verus!
