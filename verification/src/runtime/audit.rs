//! Runtime audit events, records and the request-scoped writer's sequencing and failure policy.

use vstd::prelude::*;

use super::error::{RuntimeError, RuntimeResult};
use crate::pattern::{pattern_error, regex_replace_all, regex_valid, replace_all};
use crate::text::{str_eq, to_owned_string};

use sha2::Digest;

verus! {

/// Audit sink failure behavior.
#[derive(Debug, Clone, Copy, PartialEq, Eq)]
pub enum AuditFailurePolicy {
    /// Log audit failures but continue request processing.
    FailOpen,
    /// Abort request processing when audit write fails.
    FailClosed,
}

/// Parse the configured audit failure policy: `fail-open` or `fail-closed`; anything else is an
/// unknown module of `runtime.audit`.
pub fn parse_audit_failure_policy(value: &str) -> (r: RuntimeResult<AuditFailurePolicy>)
    ensures
        value@ == "fail-open"@ ==> r == Ok::<AuditFailurePolicy, RuntimeError>(AuditFailurePolicy::FailOpen),
        value@ == "fail-closed"@ ==> r == Ok::<AuditFailurePolicy, RuntimeError>(AuditFailurePolicy::FailClosed),
        value@ != "fail-open"@ && value@ != "fail-closed"@ ==> (r matches Err(RuntimeError::UnknownModule { id, section })
            && id@ == value@ && section@ == "runtime.audit"@),
{
    proof {
        reveal_strlit("fail-open");
        reveal_strlit("fail-closed");
        assert("fail-open"@.len() != "fail-closed"@.len());
    }
    if str_eq(value, "fail-open") {
        Ok(AuditFailurePolicy::FailOpen)
    } else if str_eq(value, "fail-closed") {
        Ok(AuditFailurePolicy::FailClosed)
    } else {
        Err(RuntimeError::UnknownModule { id: to_owned_string(value), section: to_owned_string("runtime.audit") })
    }
}

/// Runtime audit event. Confidences are in ten-thousandths.
#[derive(Debug, Clone, PartialEq, Eq)]
pub enum AuditEvent {
    /// Request was received.
    RequestReceived {
        /// Hash of the raw input.
        input_hash: String,
        /// Raw input length.
        input_chars: usize,
        /// Optional frontend option id.
        option_id: Option<String>,
    },
    /// Input was normalized.
    InputNormalized {
        /// Selected intent.
        intent: String,
        /// Intent confidence, in ten-thousandths.
        confidence: u32,
        /// Intent source.
        intent_source: Option<String>,
        /// Warnings.
        warnings: Vec<String>,
    },
    /// Input was rejected.
    InputRejected {
        /// Rejection code.
        code: String,
        /// Rejection reason.
        reason: String,
    },
    /// Semantic refusal.
    Refused {
        /// Refusal reason.
        reason: String,
    },
    /// Memory context decision.
    MemoryContext {
        /// Used memory turn count.
        used_turn_count: usize,
        /// Optional dropped reason.
        dropped_reason: Option<String>,
    },
    /// Tool call metadata.
    ToolCalled {
        /// Tool name.
        tool: String,
        /// Hash of arguments.
        args_hash: String,
    },
    /// Tool result metadata.
    ToolResult {
        /// Tool name.
        tool: String,
        /// Result byte length.
        bytes: usize,
        /// Whether the tool returned successfully.
        ok: bool,
    },
    /// Clear frame observed.
    AnswerCleared,
    /// Response completed.
    ResponseCompleted {
        /// Hash of response text.
        response_hash: String,
        /// Response length.
        response_chars: usize,
        /// Duration in milliseconds.
        duration_ms: u64,
        /// Completion status.
        status: String,
    },
    /// Response failed.
    ResponseFailed {
        /// Error code.
        error_code: String,
        /// Duration in milliseconds.
        duration_ms: u64,
    },
}

/// Actor metadata attached to audit records.
#[derive(Debug, Clone, Default, PartialEq, Eq)]
pub struct AuditActor {
    /// Remote IP address.
    pub ip: Option<String>,
    /// User-Agent header.
    pub user_agent: Option<String>,
}

/// Request-scoped audit context.
#[derive(Debug, Clone, Default, PartialEq, Eq)]
pub struct AuditCtx {
    /// Request id.
    pub request_id: String,
    /// Optional session id.
    pub session_id: Option<String>,
    /// Route name/path.
    pub route: String,
    /// Actor metadata.
    pub actor: Option<AuditActor>,
}

/// Audit record emitted by sinks.
#[derive(Debug, Clone, PartialEq, Eq)]
pub struct AuditRecord {
    /// Request id.
    pub request_id: String,
    /// Optional session id.
    pub session_id: Option<String>,
    /// Route name/path.
    pub route: String,
    /// Per-request monotonic sequence number.
    pub seq: u64,
    /// Hashed actor IP.
    pub actor_ip: Option<String>,
    /// Hashed actor user agent.
    pub actor_user_agent: Option<String>,
    /// Event payload.
    pub event: AuditEvent,
}

/// The lowercase hexadecimal SHA-256 digest of the UTF-8 encoding of `s`.
pub uninterp spec fn sha256_hex(s: Seq<char>) -> Seq<char>;

/// Stable SHA-256 hex hash helper for redacted identifiers.
///
/// Trusted: `sha2::Sha256::digest` of the input's bytes, rendered with `{:x}`; that rendering is
/// the 64 lowercase hex digits of the 32-byte digest.
#[verifier::external_body]
pub fn hash_identifier(input: &str) -> (h: String)
    ensures
        h@ == sha256_hex(input@),
        h@.len() == 64,
{
    format!("{:x}", sha2::Sha256::digest(input.as_bytes()))
}

/// The hashed rendering of an optional identifier.
pub open spec fn hashed(v: Option<String>) -> Option<Seq<char>> {
    match v {
        Some(s) => Some(sha256_hex(s@)),
        None => None,
    }
}

/// The view of an optional string.
pub open spec fn opt_view(v: Option<String>) -> Option<Seq<char>> {
    match v {
        Some(s) => Some(s@),
        None => None,
    }
}

fn hash_opt(v: &Option<String>) -> (r: Option<String>)
    ensures
        opt_view(r) == hashed(*v),
{
    match v {
        Some(s) => Some(hash_identifier(s.as_str())),
        None => None,
    }
}

impl AuditRecord {
    /// Build an audit record from request context and event payload; the actor's IP and user
    /// agent are stored only as SHA-256 hashes.
    pub fn from_event(ctx: &AuditCtx, seq: u64, event: AuditEvent) -> (r: Self)
        ensures
            r.request_id == ctx.request_id,
            r.session_id == ctx.session_id,
            r.route == ctx.route,
            r.seq == seq,
            r.event == event,
            opt_view(r.actor_ip) == (match ctx.actor { Some(a) => hashed(a.ip), None => None }),
            opt_view(r.actor_user_agent) == (match ctx.actor { Some(a) => hashed(a.user_agent), None => None }),
    {
        let (actor_ip, actor_user_agent) = match &ctx.actor {
            Some(a) => (hash_opt(&a.ip), hash_opt(&a.user_agent)),
            None => (None, None),
        };
        AuditRecord {
            request_id: ctx.request_id.clone(),
            session_id: crate::runtime::memory::store::clone_opt(&ctx.session_id),
            route: ctx.route.clone(),
            seq,
            actor_ip,
            actor_user_agent,
            event,
        }
    }
}

/// Audit sink contract.
pub trait AuditSink {
    /// Write one audit event.
    fn write(&self, ctx: &AuditCtx, seq: u64, event: AuditEvent) -> RuntimeResult<()>;
}

/// No-op audit sink for disabled or placeholder wiring.
#[derive(Debug, Default, Clone, Copy)]
pub struct NoopAuditSink;

impl AuditSink for NoopAuditSink {
    /// Accepts every event.
    fn write(&self, _ctx: &AuditCtx, _seq: u64, _event: AuditEvent) -> (r: RuntimeResult<()>)
        ensures
            r is Ok,
    {
        Ok(())
    }
}

/// Stdout JSON-lines audit sink (its output is written by the host).
#[derive(Debug, Default, Clone, Copy)]
pub struct StdoutAuditSink;

/// Request-scoped audit writer: assigns sequence numbers `1, 2, …` and applies the configured
/// failure policy to the sink's outcome.
#[derive(Debug, Clone)]
pub struct AuditWriter {
    policy: AuditFailurePolicy,
    seq: u64,
}

impl AuditWriter {
    /// The configured failure policy.
    pub closed spec fn spec_policy(self) -> AuditFailurePolicy {
        self.policy
    }

    /// How many sequence numbers were handed out.
    pub closed spec fn issued(self) -> u64 {
        self.seq
    }

    /// Create a writer for one request.
    pub fn new(policy: AuditFailurePolicy) -> (w: Self)
        ensures
            w.spec_policy() == policy,
            w.issued() == 0,
    {
        AuditWriter { policy, seq: 0 }
    }

    /// The failure policy.
    pub fn policy(&self) -> (p: AuditFailurePolicy)
        ensures
            p == self.spec_policy(),
    {
        self.policy
    }

    /// Hands out the next sequence number: one more than the previous.
    pub fn next_seq(&mut self) -> (s: u64)
        requires
            old(self).issued() < u64::MAX,
        ensures
            s == old(self).issued() + 1,
            final(self).issued() == s,
            final(self).spec_policy() == old(self).spec_policy(),
    {
        self.seq = self.seq + 1;
        self.seq
    }

    /// Builds the record for the next event, with the next sequence number.
    pub fn next_record(&mut self, ctx: &AuditCtx, event: AuditEvent) -> (r: AuditRecord)
        requires
            old(self).issued() < u64::MAX,
        ensures
            r.seq == old(self).issued() + 1,
            final(self).issued() == r.seq,
            final(self).spec_policy() == old(self).spec_policy(),
            r.request_id == ctx.request_id && r.event == event,
    {
        let seq = self.next_seq();
        AuditRecord::from_event(ctx, seq, event)
    }

    /// Applies the failure policy to a sink outcome: a success passes; a failure passes under
    /// fail-open and is returned under fail-closed.
    pub fn settle(&self, outcome: RuntimeResult<()>) -> (r: RuntimeResult<()>)
        ensures
            outcome is Ok ==> r is Ok,
            outcome is Err && self.spec_policy() == AuditFailurePolicy::FailOpen ==> r is Ok,
            outcome is Err && self.spec_policy() == AuditFailurePolicy::FailClosed ==> r == outcome,
    {
        match outcome {
            Ok(()) => Ok(()),
            Err(e) => match self.policy {
                AuditFailurePolicy::FailOpen => Ok(()),
                AuditFailurePolicy::FailClosed => Err(e),
            },
        }
    }
}

/// Replaces every match of `pattern` when it compiles; otherwise leaves `text` unchanged.
fn replace_if_valid(pattern: &str, text: &str, replacement: &str) -> (r: String)
    ensures
        regex_valid(pattern@) ==> r@ == regex_replace_all(pattern@, text@, replacement@),
        !regex_valid(pattern@) ==> r@ == text@,
{
    match pattern_error(pattern) {
        None => replace_all(pattern, text, replacement),
        Some(_) => to_owned_string(text),
    }
}

/// The bearer-token pattern secrets are masked by.
pub open spec fn bearer_pattern() -> Seq<char> {
    "(?i)bearer\\s+[A-Za-z0-9._~+/=-]+"@
}

/// The `KEY=value` secret pattern.
pub open spec fn env_secret_pattern() -> Seq<char> {
    "(?i)\\b(GLOBAL_TOKEN|OPENROUTER_API_KEY|api[_-]?key)\\s*=\\s*\\S+"@
}

/// Redact known secret patterns from audit-safe strings: bearer tokens become
/// `Bearer [REDACTED]`, then `KEY=value` secrets become `KEY=[REDACTED]`.
pub fn redact_secrets(input: &str) -> (r: String)
    ensures
        ({
            let first = if regex_valid(bearer_pattern()) {
                regex_replace_all(bearer_pattern(), input@, "Bearer [REDACTED]"@)
            } else {
                input@
            };
            r@ == if regex_valid(env_secret_pattern()) {
                regex_replace_all(env_secret_pattern(), first, "$1=[REDACTED]"@)
            } else {
                first
            }
        }),
{
    let redacted = replace_if_valid("(?i)bearer\\s+[A-Za-z0-9._~+/=-]+", input, "Bearer [REDACTED]");
    replace_if_valid(
        "(?i)\\b(GLOBAL_TOKEN|OPENROUTER_API_KEY|api[_-]?key)\\s*=\\s*\\S+",
        redacted.as_str(),
        "$1=[REDACTED]",
    )
}

} // verus!
