//! The durable runtime store's decisions: identifier validation, session ownership with expiry,
//! summary sanitization, the Asia/Taipei budget month, and the per-actor monthly micro-USD
//! ledger. The database itself is driven by the caller.

pub mod ledger;
pub mod month;
pub mod sanitize;

use vstd::prelude::*;

use crate::runtime::store::sanitize::{default_redact_patterns, RedactPattern};
use crate::text::{concat2, to_owned_string};

verus! {

/// The monthly budget: USD 20 in integer micro-USD.
pub const MONTHLY_BUDGET_MICRO: i64 = 20_000_000;

/// Upper bound for actor keys and session ids, in characters.
pub const MAX_IDENTIFIER_CHARS: usize = 128;

/// Store construction parameters.
#[derive(Debug)]
pub struct StoreConfig {
    /// Database file path.
    pub db_path: String,
    /// Maximum retained summaries per session (1 to 5).
    pub max_turns: usize,
    /// Session TTL in days from the last successful append.
    pub ttl_days: u32,
    /// Busy timeout in milliseconds.
    pub busy_timeout_ms: u64,
    /// Per-field character limit applied after redaction.
    pub summary_char_limit: usize,
    /// Sensitive patterns redacted from every summary field before insert.
    pub redact_patterns: Vec<RedactPattern>,
}

impl StoreConfig {
    /// The defaults for everything but the database path: 5 turns, 30 days, 5000 ms, 500
    /// characters, and the default sensitive patterns.
    pub fn new(db_path: String) -> (r: Self)
        ensures
            r.db_path == db_path,
            r.max_turns == 5,
            r.ttl_days == 30,
            r.busy_timeout_ms == 5000,
            r.summary_char_limit == 500,
            crate::runtime::store::sanitize::sources(r.redact_patterns@)
                == crate::runtime::store::sanitize::compiling(
                crate::runtime::store::sanitize::default_sources(),
            ),
    {
        StoreConfig {
            db_path,
            max_turns: 5,
            ttl_days: 30,
            busy_timeout_ms: 5000,
            summary_char_limit: 500,
            redact_patterns: default_redact_patterns(),
        }
    }
}

/// Typed repository errors; they never carry stored content.
#[derive(Debug, Clone, PartialEq, Eq)]
pub enum StoreError {
    /// The database cannot be opened or migrated, or a transaction failed.
    Unavailable(String),
    /// The session is owned by a different, non-expired actor.
    OwnershipConflict,
    /// A structurally invalid identifier or amount.
    InvalidIdentifier(String),
    /// The reservation id is unknown, already settled, or reused with a different actor, month or
    /// amount.
    ReservationMismatch,
}

/// The human-readable text of a store error.
pub open spec fn store_error_text(e: StoreError) -> Seq<char> {
    match e {
        StoreError::Unavailable(m) => "runtime store unavailable: "@ + m@,
        StoreError::OwnershipConflict => "session is owned by a different actor"@,
        StoreError::InvalidIdentifier(w) => "invalid identifier: "@ + w@,
        StoreError::ReservationMismatch => "unknown or mismatched reservation id (wrong actor, month, amount, or already settled)"@,
    }
}

impl StoreError {
    /// The error's message.
    pub fn message(&self) -> (r: String)
        ensures
            r@ == store_error_text(*self),
    {
        match self {
            StoreError::Unavailable(m) => concat2("runtime store unavailable: ", m.as_str()),
            StoreError::OwnershipConflict => to_owned_string("session is owned by a different actor"),
            StoreError::InvalidIdentifier(w) => concat2("invalid identifier: ", w.as_str()),
            StoreError::ReservationMismatch => to_owned_string(
                "unknown or mismatched reservation id (wrong actor, month, amount, or already settled)",
            ),
        }
    }
}

/// One owned session row.
#[derive(Debug, Clone, PartialEq, Eq)]
pub struct SessionRecord {
    pub session_id: String,
    /// Opaque owner key.
    pub actor_key: String,
    pub created_at_ms: u64,
    /// Last successful append; creation counts as the first append.
    pub last_append_ms: u64,
}

/// Caller-supplied summary fields for one turn.
#[derive(Debug, Clone, PartialEq, Eq)]
pub struct TurnSummaryInput {
    pub turn_id: String,
    pub user_summary: String,
    pub answer_summary: String,
    pub intent: Option<String>,
    pub metric: Option<String>,
    pub asset: Option<String>,
    pub time_range_label: Option<String>,
    pub option_id: Option<String>,
}

/// One persisted, sanitized turn summary.
#[derive(Debug, Clone, PartialEq, Eq)]
pub struct StoredTurn {
    /// Monotonic per-session sequence.
    pub seq: u64,
    pub turn_id: String,
    pub user_summary: String,
    pub answer_summary: String,
    pub intent: Option<String>,
    pub metric: Option<String>,
    pub asset: Option<String>,
    pub time_range_label: Option<String>,
    pub option_id: Option<String>,
    pub created_at_ms: u64,
}

/// Snapshot of one actor's active-month ledger.
#[derive(Debug, Clone, PartialEq, Eq)]
pub struct LedgerSnapshot {
    /// Asia/Taipei month key, e.g. `2026-08`.
    pub month_key: String,
    /// Settled spend in micro-USD.
    pub spent_micro: i64,
    /// Pending reserved amount in micro-USD.
    pub reserved_micro: i64,
    /// Remaining budget in micro-USD, clamped at 0.
    pub remaining_micro: i64,
    /// UTC instant (milliseconds) at which the next month starts.
    pub next_reset_utc_ms: i64,
}

/// Outcome of one reservation attempt.
#[derive(Debug, Clone, PartialEq, Eq)]
pub enum ReserveOutcome {
    /// The amount was reserved.
    Reserved { snapshot: LedgerSnapshot },
    /// The reservation would exceed the monthly budget, or the month is overdrawn.
    BudgetExceeded { snapshot: LedgerSnapshot, next_reset_utc_ms: i64 },
}

/// Outcome of one settlement attempt.
#[derive(Debug, Clone, Copy, PartialEq, Eq)]
pub enum SettleOutcome {
    /// Cost moved from reserved to spent exactly once.
    Settled,
    /// The cost exceeded the budget; the month is overdrawn by this much.
    SettledWithOverage { overdrawn_by_micro: i64 },
    /// Already settled; nothing changed.
    AlreadySettled,
    /// No authoritative cost; the reservation stays pending until reconciliation.
    ReconciliationRequired,
}

} // verus!
